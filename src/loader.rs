//! Mapping of the kernel image: where each loadable segment goes in physical
//! memory, what the mapped bytes hold, and where execution starts.

use vstd::prelude::*;
use vstd::arithmetic::div_mod::{lemma_fundamental_div_mod, lemma_hoist_over_denominator};
use crate::elf::{ElfError, SegmentHeader, image_error, ph_count, program_header, parse_image};
use crate::bytes::le_u64;

verus! {

/// Constant offset between the image's virtual addresses and the physical
/// addresses it is loaded at.
pub const KERNEL_LOAD_BASE: u64 = 0x1_0000_0000;

pub const PAGE_SIZE: u64 = 0x1000;

/// Program-header type of a loadable segment.
pub const SEGMENT_LOAD: u32 = 1;

/// Program-header flag of an executable segment.
pub const FLAG_EXECUTE: u32 = 1;

/// Classification of the pages requested for a segment.
#[derive(PartialEq, Eq, Structural, Clone, Copy, Debug)]
pub enum MemoryKind {
    Code,
    Data,
}

/// Why the kernel image cannot be mapped.
#[derive(PartialEq, Eq, Structural, Clone, Copy, Debug)]
pub enum LoadError {
    /// The image itself was rejected.
    Image(ElfError),
    /// A loadable segment's file bytes lie past the end of the image.
    SegmentOutsideFile,
    /// A loadable segment has more file bytes than memory bytes.
    FileSizeAboveMemSize,
    /// A physical address does not fit in 64 bits.
    AddressOverflow,
}

/// Where and how one loadable segment is mapped: `num_pages` pages from the
/// page-aligned `phys_base`, the segment's first byte at `page_offset`.
#[derive(PartialEq, Eq, Structural, Clone, Copy, Debug)]
pub struct SegmentPlan {
    pub phys_base: u64,
    pub page_offset: u64,
    pub num_pages: u64,
    pub kind: MemoryKind,
    pub file_offset: u64,
    pub file_size: u64,
    pub mem_size: u64,
}

/// What the loader does with an image: the entry address and one plan per
/// loadable segment, in table order.
pub struct KernelLoadPlan {
    pub entry: u64,
    pub segments: Vec<SegmentPlan>,
}

/// Number of pages that `n` bytes occupy.
pub open spec fn pages_for(n: nat) -> nat {
    ((n + 4095) / 4096) as nat
}

pub open spec fn page_floor(v: nat) -> nat {
    (v - v % 4096) as nat
}

pub open spec fn memory_kind(flags: u32) -> MemoryKind {
    if flags & FLAG_EXECUTE == FLAG_EXECUTE {
        MemoryKind::Code
    } else {
        MemoryKind::Data
    }
}

/// The plan of a loadable segment of an image of `image_len` bytes.
pub open spec fn plan_segment_spec(h: SegmentHeader, image_len: nat) -> Result<SegmentPlan, LoadError> {
    if h.file_size > h.mem_size {
        Err(LoadError::FileSizeAboveMemSize)
    } else if h.offset + h.file_size > image_len {
        Err(LoadError::SegmentOutsideFile)
    } else {
        let off = (h.vaddr % 4096) as nat;
        let pages = pages_for((off + h.mem_size) as nat);
        let base = KERNEL_LOAD_BASE + page_floor(h.vaddr as nat);
        if base + pages * PAGE_SIZE > u64::MAX {
            Err(LoadError::AddressOverflow)
        } else {
            Ok(
                SegmentPlan {
                    phys_base: base as u64,
                    page_offset: off as u64,
                    num_pages: pages as u64,
                    kind: memory_kind(h.flags),
                    file_offset: h.offset,
                    file_size: h.file_size,
                    mem_size: h.mem_size,
                },
            )
        }
    }
}

proof fn lemma_pages(n: nat)
    ensures
        pages_for(n) == n / 4096 + (if n % 4096 == 0 {
            0int
        } else {
            1int
        }),
        n <= pages_for(n) * 4096,
        pages_for(n) * 4096 < n + 4096,
{
    let p = 4096int;
    let x = n as int;
    lemma_fundamental_div_mod(x, p);
    lemma_fundamental_div_mod(x + (p - 1), p);
    let q = x / p;
    let r = x % p;
    assert(x + (p - 1) == p * q + (r + p - 1));
    lemma_hoist_over_denominator(r + p - 1, q, p as nat);
    assert((x + (p - 1)) / p == (r + p - 1) / p + q);
    if r == 0 {
        assert((p - 1) / p == 0);
    } else {
        lemma_fundamental_div_mod(r + p - 1, p);
        assert((r + p - 1) / p == 1);
    }
    assert(pages_for(n) * p == (q + (if r == 0 { 0int } else { 1int })) * p);
    assert((q + 1) * p == q * p + p) by (nonlinear_arith);
}

/// Decides where one loadable segment goes.
pub fn plan_segment(h: &SegmentHeader, image_len: usize) -> (r: Result<SegmentPlan, LoadError>)
    ensures
        r == plan_segment_spec(*h, image_len as nat),
{
    if h.file_size > h.mem_size {
        return Err(LoadError::FileSizeAboveMemSize);
    }
    if h.offset > image_len as u64 || h.file_size > image_len as u64 - h.offset {
        return Err(LoadError::SegmentOutsideFile);
    }
    let off = h.vaddr % PAGE_SIZE;
    let floor = h.vaddr - off;
    let ghost pages_s = pages_for((off + h.mem_size) as nat);
    proof {
        lemma_pages((off + h.mem_size) as nat);
    }
    if floor > u64::MAX - KERNEL_LOAD_BASE || h.mem_size > u64::MAX - off {
        return Err(LoadError::AddressOverflow);
    }
    let base = KERNEL_LOAD_BASE + floor;
    let total = off + h.mem_size;
    let pages = total / PAGE_SIZE + if total % PAGE_SIZE == 0 {
        0
    } else {
        1
    };
    assert(pages == pages_s);
    let limit = (u64::MAX - base) / PAGE_SIZE;
    if pages > limit {
        assert(pages * 4096 > u64::MAX - base) by (nonlinear_arith)
            requires
                pages > limit,
                limit == (u64::MAX - base) / 4096,
                u64::MAX - base >= 0,
        ;
        return Err(LoadError::AddressOverflow);
    }
    assert(pages * 4096 <= u64::MAX - base) by (nonlinear_arith)
        requires
            pages <= limit,
            limit == (u64::MAX - base) / 4096,
            u64::MAX - base >= 0,
    ;
    let kind = if h.flags & FLAG_EXECUTE == FLAG_EXECUTE {
        MemoryKind::Code
    } else {
        MemoryKind::Data
    };
    Ok(
        SegmentPlan {
            phys_base: base,
            page_offset: off,
            num_pages: pages,
            kind,
            file_offset: h.offset,
            file_size: h.file_size,
            mem_size: h.mem_size,
        },
    )
}

/// Plans of the loadable segments among `segs`, in order, or the first
/// segment's error.
pub open spec fn plan_segments_spec(segs: Seq<SegmentHeader>, image_len: nat) -> Result<
    Seq<SegmentPlan>,
    LoadError,
>
    decreases segs.len(),
{
    if segs.len() == 0 {
        Ok(Seq::empty())
    } else {
        match plan_segments_spec(segs.drop_last(), image_len) {
            Err(e) => Err(e),
            Ok(ps) => if segs.last().kind != SEGMENT_LOAD {
                Ok(ps)
            } else {
                match plan_segment_spec(segs.last(), image_len) {
                    Ok(p) => Ok(ps.push(p)),
                    Err(e) => Err(e),
                }
            },
        }
    }
}

/// The loadable segments among `segs`, in order.
pub open spec fn loadable_segments(segs: Seq<SegmentHeader>) -> Seq<SegmentHeader>
    decreases segs.len(),
{
    if segs.len() == 0 {
        Seq::empty()
    } else if segs.last().kind != SEGMENT_LOAD {
        loadable_segments(segs.drop_last())
    } else {
        loadable_segments(segs.drop_last()).push(segs.last())
    }
}

/// The program headers of the image `s`.
pub open spec fn image_segments(s: Seq<u8>) -> Seq<SegmentHeader> {
    Seq::new(ph_count(s), |i: int| program_header(s, i))
}

/// What the loader does with the image `s`: the entry address and the
/// segment plans, or why it cannot.
pub open spec fn kernel_plan_spec(s: Seq<u8>) -> Result<(u64, Seq<SegmentPlan>), LoadError> {
    match image_error(s) {
        Some(e) => Err(LoadError::Image(e)),
        None => match plan_segments_spec(image_segments(s), s.len()) {
            Err(e) => Err(e),
            Ok(ps) => if KERNEL_LOAD_BASE + le_u64(s, 24) > u64::MAX {
                Err(LoadError::AddressOverflow)
            } else {
                Ok(((KERNEL_LOAD_BASE + le_u64(s, 24)) as u64, ps))
            },
        },
    }
}

/// Parses the kernel image and decides where each loadable segment goes and
/// where execution starts; other segments are skipped.
pub fn plan_kernel_load(bytes: &[u8]) -> (r: Result<KernelLoadPlan, LoadError>)
    ensures
        match r {
            Ok(plan) => kernel_plan_spec(bytes@) == Ok::<(u64, Seq<SegmentPlan>), LoadError>(
                (plan.entry, plan.segments@),
            ),
            Err(e) => kernel_plan_spec(bytes@) == Err::<(u64, Seq<SegmentPlan>), LoadError>(e),
        },
{
    let img = match parse_image(bytes) {
        Ok(img) => img,
        Err(e) => {
            return Err(LoadError::Image(e));
        },
    };
    let ghost segs = image_segments(bytes@);
    assert(img.segments@ =~= segs);
    let mut plans: Vec<SegmentPlan> = Vec::new();
    let n = img.segments.len();
    let mut i: usize = 0;
    while i < n
        invariant
            n == img.segments@.len(),
            img.segments@ == segs,
            segs == image_segments(bytes@),
            image_error(bytes@) is None,
            img.entry as nat == le_u64(bytes@, 24),
            i <= n,
            plan_segments_spec(segs.subrange(0, i as int), bytes@.len()) == Ok::<
                Seq<SegmentPlan>,
                LoadError,
            >(plans@),
        decreases n - i,
    {
        let h = img.segments[i];
        proof {
            lemma_plan_step(segs, i as int, bytes@.len());
        }
        if h.kind == SEGMENT_LOAD {
            match plan_segment(&h, bytes.len()) {
                Ok(p) => plans.push(p),
                Err(e) => {
                    proof {
                        lemma_plan_error_persists(segs, i + 1, bytes@.len(), e);
                        assert(image_error(bytes@) is None);
                        assert(plan_segments_spec(image_segments(bytes@), bytes@.len()) == Err::<
                            Seq<SegmentPlan>,
                            LoadError,
                        >(e));
                    }
                    return Err(e);
                },
            }
        }
        i = i + 1;
    }
    assert(segs.subrange(0, n as int) =~= segs);
    if img.entry > u64::MAX - KERNEL_LOAD_BASE {
        return Err(LoadError::AddressOverflow);
    }
    Ok(KernelLoadPlan { entry: KERNEL_LOAD_BASE + img.entry, segments: plans })
}

proof fn lemma_plan_step(segs: Seq<SegmentHeader>, i: int, len: nat)
    requires
        0 <= i < segs.len(),
    ensures
        plan_segments_spec(segs.subrange(0, i + 1), len) == match plan_segments_spec(
            segs.subrange(0, i),
            len,
        ) {
            Err(e) => Err(e),
            Ok(ps) => if segs[i].kind != SEGMENT_LOAD {
                Ok(ps)
            } else {
                match plan_segment_spec(segs[i], len) {
                    Ok(p) => Ok(ps.push(p)),
                    Err(e) => Err(e),
                }
            },
        },
{
    assert(segs.subrange(0, i + 1).drop_last() =~= segs.subrange(0, i));
    assert(segs.subrange(0, i + 1).last() == segs[i]);
}

proof fn lemma_plan_error_persists(segs: Seq<SegmentHeader>, k: int, len: nat, e: LoadError)
    requires
        0 <= k <= segs.len(),
        plan_segments_spec(segs.subrange(0, k), len) == Err::<Seq<SegmentPlan>, LoadError>(e),
    ensures
        plan_segments_spec(segs, len) == Err::<Seq<SegmentPlan>, LoadError>(e),
    decreases segs.len() - k,
{
    if k < segs.len() {
        assert(segs.subrange(0, k + 1).drop_last() =~= segs.subrange(0, k));
        lemma_plan_error_persists(segs, k + 1, len, e);
    } else {
        assert(segs.subrange(0, k) =~= segs);
    }
}

/// The bytes that the mapped region of a segment holds from its first byte
/// on: its file bytes, then zeros up to its memory size.
pub fn segment_contents(image: &[u8], plan: &SegmentPlan) -> (r: Vec<u8>)
    requires
        plan.file_offset + plan.file_size <= image@.len() <= usize::MAX,
        plan.file_size <= plan.mem_size <= usize::MAX,
    ensures
        r@.len() == plan.mem_size,
        forall|i: int| 0 <= i < plan.file_size ==> #[trigger] r@[i] == image@[plan.file_offset + i],
        forall|i: int| plan.file_size <= i < plan.mem_size ==> #[trigger] r@[i] == 0,
{
    let start = plan.file_offset as usize;
    let file_size = plan.file_size as usize;
    let mem_size = plan.mem_size as usize;
    let mut out: Vec<u8> = Vec::new();
    let mut i: usize = 0;
    while i < file_size
        invariant
            i <= file_size <= mem_size,
            start + file_size <= image@.len(),
            start == plan.file_offset,
            image@.len() <= usize::MAX,
            file_size == plan.file_size,
            out@.len() == i,
            forall|k: int| 0 <= k < i ==> #[trigger] out@[k] == image@[start + k],
        decreases file_size - i,
    {
        out.push(image[start + i]);
        i = i + 1;
    }
    while i < mem_size
        invariant
            file_size <= i <= mem_size,
            mem_size == plan.mem_size,
            start == plan.file_offset,
            file_size == plan.file_size,
            out@.len() == i,
            forall|k: int| 0 <= k < file_size ==> #[trigger] out@[k] == image@[start + k],
            forall|k: int| file_size <= k < i ==> #[trigger] out@[k] == 0,
        decreases mem_size - i,
    {
        out.push(0);
        i = i + 1;
    }
    out
}

/// First physical address past the pages of a segment plan.
pub open spec fn phys_end(p: SegmentPlan) -> nat {
    (p.phys_base + p.num_pages * PAGE_SIZE) as nat
}

/// The pages of `p` are page-aligned and hold the whole memory image of `h`
/// at a constant offset from its virtual addresses.
pub open spec fn plan_covers(p: SegmentPlan, h: SegmentHeader) -> bool {
    &&& p.phys_base % PAGE_SIZE == 0
    &&& p.phys_base + p.page_offset == KERNEL_LOAD_BASE + h.vaddr
    &&& p.phys_base + p.page_offset + h.mem_size <= phys_end(p)
}

/// The last page touched by `h` lies before the first page of `g`.
pub open spec fn pages_precede(h: SegmentHeader, g: SegmentHeader) -> bool {
    pages_for((h.vaddr + h.mem_size) as nat) * 4096 <= page_floor(g.vaddr as nat)
}

proof fn lemma_segment_plan(h: SegmentHeader, len: nat)
    requires
        plan_segment_spec(h, len) is Ok,
    ensures
        plan_covers(plan_segment_spec(h, len)->Ok_0, h),
        phys_end(plan_segment_spec(h, len)->Ok_0) == KERNEL_LOAD_BASE + pages_for(
            (h.vaddr + h.mem_size) as nat,
        ) * 4096,
{
    let p = plan_segment_spec(h, len)->Ok_0;
    let v = h.vaddr as int;
    let m = h.mem_size as int;
    lemma_fundamental_div_mod(v, 4096);
    let q = v / 4096;
    let r = v % 4096;
    lemma_pages((r + m) as nat);
    lemma_pages((v + m) as nat);
    assert(KERNEL_LOAD_BASE % 4096 == 0);
    assert((KERNEL_LOAD_BASE + 4096 * q) % 4096 == 0) by (nonlinear_arith)
        requires
            KERNEL_LOAD_BASE == 0x1_0000_0000,
    {
        assert(KERNEL_LOAD_BASE + 4096 * q == 4096 * (0x10_0000 + q));
    }
    lemma_fundamental_div_mod(r + m + 4095, 4096);
    lemma_hoist_over_denominator(r + m + 4095, q, 4096);
    assert(v + m + 4095 == (r + m + 4095) + q * 4096);
    assert(pages_for((v + m) as nat) == pages_for((r + m) as nat) + q);
    assert((pages_for((r + m) as nat) + q) * 4096 == pages_for((r + m) as nat) * 4096 + q * 4096)
        by (nonlinear_arith);
}

/// Each loadable segment's plan covers the segment's whole memory image at
/// `KERNEL_LOAD_BASE` plus its virtual address, and segments that touch no
/// common page get disjoint physical page ranges.
pub proof fn lemma_segment_plans_cover_and_separate(
    h: SegmentHeader,
    g: SegmentHeader,
    image_len: nat,
)
    requires
        plan_segment_spec(h, image_len) is Ok,
        plan_segment_spec(g, image_len) is Ok,
    ensures
        plan_covers(plan_segment_spec(h, image_len)->Ok_0, h),
        plan_covers(plan_segment_spec(g, image_len)->Ok_0, g),
        pages_precede(h, g) ==> phys_end(plan_segment_spec(h, image_len)->Ok_0)
            <= plan_segment_spec(g, image_len)->Ok_0.phys_base,
{
    lemma_segment_plan(h, image_len);
    lemma_segment_plan(g, image_len);
}

proof fn lemma_plans_match_loadable(segs: Seq<SegmentHeader>, len: nat)
    requires
        plan_segments_spec(segs, len) is Ok,
    ensures
        plan_segments_spec(segs, len)->Ok_0.len() == loadable_segments(segs).len(),
        forall|i: int|
            0 <= i < loadable_segments(segs).len() ==> plan_segment_spec(
                #[trigger] loadable_segments(segs)[i],
                len,
            ) == Ok::<SegmentPlan, LoadError>(plan_segments_spec(segs, len)->Ok_0[i]),
    decreases segs.len(),
{
    if segs.len() > 0 {
        lemma_plans_match_loadable(segs.drop_last(), len);
    }
}

/// For an image that the loader accepts: every loadable segment is covered by
/// its plan, and two loadable segments that touch no common page are mapped
/// to disjoint physical page ranges.
pub proof fn lemma_kernel_plan_covers_segments(s: Seq<u8>)
    requires
        kernel_plan_spec(s) is Ok,
    ensures
        ({
            let plans = kernel_plan_spec(s)->Ok_0.1;
            let segs = loadable_segments(image_segments(s));
            &&& plans.len() == segs.len()
            &&& forall|i: int| 0 <= i < plans.len() ==> plan_covers(#[trigger] plans[i], segs[i])
            &&& forall|i: int, j: int|
                0 <= i < plans.len() && 0 <= j < plans.len() && pages_precede(
                    #[trigger] segs[i],
                    #[trigger] segs[j],
                ) ==> phys_end(plans[i]) <= plans[j].phys_base
        }),
{
    let plans = kernel_plan_spec(s)->Ok_0.1;
    let all = image_segments(s);
    let segs = loadable_segments(all);
    lemma_plans_match_loadable(all, s.len());
    assert forall|i: int| 0 <= i < plans.len() implies plan_covers(#[trigger] plans[i], segs[i]) by {
        assert(plan_segment_spec(segs[i], s.len()) == Ok::<SegmentPlan, LoadError>(plans[i]));
        lemma_segment_plan(segs[i], s.len());
    }
    assert forall|i: int, j: int|
        0 <= i < plans.len() && 0 <= j < plans.len() && pages_precede(
            #[trigger] segs[i],
            #[trigger] segs[j],
        ) implies phys_end(plans[i]) <= plans[j].phys_base by {
        assert(plan_segment_spec(segs[i], s.len()) == Ok::<SegmentPlan, LoadError>(plans[i]));
        assert(plan_segment_spec(segs[j], s.len()) == Ok::<SegmentPlan, LoadError>(plans[j]));
        lemma_segment_plans_cover_and_separate(segs[i], segs[j], s.len());
    }
}

/// The entry address is `KERNEL_LOAD_BASE` plus the header's entry point, and
/// where that entry point lies inside a loadable segment, the entry address
/// lies inside that segment's mapped pages.
pub proof fn lemma_entry_in_mapped_segment(s: Seq<u8>, i: int)
    requires
        kernel_plan_spec(s) is Ok,
        0 <= i < loadable_segments(image_segments(s)).len(),
        loadable_segments(image_segments(s))[i].vaddr <= le_u64(s, 24) < loadable_segments(
            image_segments(s),
        )[i].vaddr + loadable_segments(image_segments(s))[i].mem_size,
    ensures
        kernel_plan_spec(s)->Ok_0.0 == KERNEL_LOAD_BASE + le_u64(s, 24),
        kernel_plan_spec(s)->Ok_0.1[i].phys_base <= kernel_plan_spec(s)->Ok_0.0 < phys_end(
            kernel_plan_spec(s)->Ok_0.1[i],
        ),
{
    lemma_kernel_plan_covers_segments(s);
}

} // verus!
