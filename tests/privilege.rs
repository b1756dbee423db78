use boykernel::privilege::{
    new_descriptor_table, new_task_state_segment, tss_descriptor, DOUBLE_FAULT_STACK_SIZE,
    KERNEL_CODE_DESCRIPTOR,
};

#[test]
fn double_fault_stack_top_in_first_slot() {
    let tss = new_task_state_segment(0x40_0000, DOUBLE_FAULT_STACK_SIZE);
    assert_eq!(tss.interrupt_stack_table, [0x40_0000 + 4096 * 5, 0, 0, 0, 0, 0, 0]);
    assert_eq!(tss.privilege_stack_table, [0, 0, 0]);
    assert_eq!(tss.iomap_base, 104);
    assert_eq!(tss.interrupt_stack_table[0] % 16, 0);
}

#[test]
fn task_state_descriptor_words() {
    let (low, high) = tss_descriptor(0x1234_5678_9ABC_DEF0, 103);
    assert_eq!(low, 0x9A00_89BC_DEF0_0067);
    assert_eq!(high, 0x1234_5678);
}

#[test]
fn descriptor_table_layout() {
    let gdt = new_descriptor_table(0x1234_5678_9ABC_DEF0);
    assert_eq!(
        gdt.entries,
        vec![0, KERNEL_CODE_DESCRIPTOR, 0x9A00_89BC_DEF0_0067, 0x1234_5678]
    );
}
