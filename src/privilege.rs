//! The task-state segment with the double fault's dedicated stack, and the
//! segment descriptor table that references it.

use vstd::prelude::*;

verus! {

/// Size in bytes of the stack reserved for the double-fault handler.
pub const DOUBLE_FAULT_STACK_SIZE: u64 = 4096 * 5;
/// Alignment of the reserved stack.
pub const STACK_ALIGN: u64 = 16;
/// Size in bytes of a 64-bit task-state segment.
pub const TSS_SIZE: u64 = 104;
/// Descriptor of the 64-bit kernel code segment: present, ring 0, long mode.
pub const KERNEL_CODE_DESCRIPTOR: u64 = 0x00AF_9A00_0000_FFFF;
/// Access byte of an available 64-bit task-state segment, present, ring 0.
pub const TSS_ACCESS: u64 = 0x89;
/// Selector of the kernel code segment.
pub const KERNEL_CODE_SELECTOR: u16 = 0x08;
/// Selector of the task-state segment.
pub const TSS_SELECTOR: u16 = 0x10;

/// A 64-bit task-state segment: the interrupt stack table and the I/O map base.
#[derive(Clone, Copy, Debug)]
pub struct TaskStateSegment {
    pub interrupt_stack_table: [u64; 7],
    pub privilege_stack_table: [u64; 3],
    pub iomap_base: u16,
}

/// Builds the task-state segment whose first stack-table entry is the top of
/// the reserved stack `[stack_base, stack_base + stack_size)`.
pub fn new_task_state_segment(stack_base: u64, stack_size: u64) -> (r: TaskStateSegment)
    requires
        stack_base % STACK_ALIGN == 0,
        stack_size % STACK_ALIGN == 0,
        stack_base + stack_size <= u64::MAX,
    ensures
        r.interrupt_stack_table@ == seq![
            (stack_base + stack_size) as u64,
            0u64,
            0u64,
            0u64,
            0u64,
            0u64,
            0u64,
        ],
        r.privilege_stack_table@ == seq![0u64, 0u64, 0u64],
        r.iomap_base == TSS_SIZE,
        (stack_base + stack_size) % (STACK_ALIGN as int) == 0,
{
    let top = stack_base + stack_size;
    assert((stack_base + stack_size) % 16 == 0) by (nonlinear_arith)
        requires
            stack_base % 16 == 0,
            stack_size % 16 == 0,
    {
        assert(stack_base == 16 * (stack_base / 16));
        assert(stack_size == 16 * (stack_size / 16));
        assert(stack_base + stack_size == 16 * (stack_base / 16 + stack_size / 16));
    }
    let r = TaskStateSegment {
        interrupt_stack_table: [top, 0, 0, 0, 0, 0, 0],
        privilege_stack_table: [0, 0, 0],
        iomap_base: TSS_SIZE as u16,
    };
    assert(r.interrupt_stack_table@ =~= seq![top, 0u64, 0u64, 0u64, 0u64, 0u64, 0u64]);
    assert(r.privilege_stack_table@ =~= seq![0u64, 0u64, 0u64]);
    r
}

pub open spec fn tss_descriptor_low(base: u64, limit: u32) -> u64 {
    ((limit as u64) & 0xFFFF) | ((base & 0xFF_FFFF) << 16u64) | (TSS_ACCESS << 40u64) | ((((
    limit as u64) >> 16u64) & 0xF) << 48u64) | (((base >> 24u64) & 0xFF) << 56u64)
}

/// The two descriptor words of a task-state segment at `base` with byte
/// limit `limit`.
pub fn tss_descriptor(base: u64, limit: u32) -> (r: (u64, u64))
    ensures
        r.0 == tss_descriptor_low(base, limit),
        r.1 == base >> 32u64,
{
    let l = limit as u64;
    let low = (l & 0xFFFF) | ((base & 0xFF_FFFF) << 16u64) | (TSS_ACCESS << 40u64) | (((l >> 16u64)
        & 0xF) << 48u64) | (((base >> 24u64) & 0xFF) << 56u64);
    (low, base >> 32u64)
}

/// The segment descriptor table: the null descriptor, the kernel code
/// segment, and the two words of the task-state segment descriptor.
pub struct DescriptorTable {
    pub entries: Vec<u64>,
}

/// Builds the descriptor table for the task-state segment at `tss_address`;
/// its selectors are `KERNEL_CODE_SELECTOR` and `TSS_SELECTOR`.
pub fn new_descriptor_table(tss_address: u64) -> (r: DescriptorTable)
    ensures
        r.entries@ == seq![
            0u64,
            KERNEL_CODE_DESCRIPTOR,
            tss_descriptor_low(tss_address, (TSS_SIZE - 1) as u32),
            tss_address >> 32u64,
        ],
        r.entries@[TSS_SELECTOR as int / 8] == tss_descriptor_low(tss_address, (TSS_SIZE - 1) as u32),
        r.entries@[KERNEL_CODE_SELECTOR as int / 8] == KERNEL_CODE_DESCRIPTOR,
{
    let (low, high) = tss_descriptor(tss_address, (TSS_SIZE - 1) as u32);
    let mut entries: Vec<u64> = Vec::new();
    entries.push(0);
    entries.push(KERNEL_CODE_DESCRIPTOR);
    entries.push(low);
    entries.push(high);
    DescriptorTable { entries }
}

} // verus!
