use boykernel::apic::RegisterWrite;
use boykernel::interrupts::{
    boot_sequence, boot_step, handle_interrupt, handler_class, handler_for_vector, init_idt,
    initial_boot_state, run_boot_sequence, BootState, BootStep, CpuState, Diagnostic, Handler,
    HandlerClass, HandlerEffect, IdtEntry, IdtPhase, InterruptFrame,
};

fn frame() -> InterruptFrame {
    InterruptFrame {
        instruction_pointer: 0x20_1234,
        code_segment: 8,
        cpu_flags: 0x202,
        stack_pointer: 0x7F_F000,
        stack_segment: 0,
        error_code: Some(0x18),
    }
}

#[test]
fn table_has_256_entries_with_fixed_vectors() {
    let idt = init_idt();
    assert_eq!(idt.entries.len(), 256);
    let expected = [
        (0usize, Handler::DivideError),
        (3, Handler::Breakpoint),
        (6, Handler::InvalidOpcode),
        (8, Handler::DoubleFault),
        (12, Handler::StackSegmentFault),
        (13, Handler::GeneralProtection),
        (14, Handler::PageFault),
        (32, Handler::Timer),
        (42, Handler::Test),
        (255, Handler::Spurious),
    ];
    for v in 0..256usize {
        let want = expected.iter().find(|(k, _)| *k == v).map(|(_, h)| *h);
        assert_eq!(idt.entries[v].handler, want);
        assert_eq!(handler_for_vector(v as u8), want);
    }
    assert_eq!(
        idt.entries[8],
        IdtEntry { handler: Some(Handler::DoubleFault), stack_index: Some(0) }
    );
    assert_eq!(idt.entries[14].stack_index, None);
}

#[test]
fn handler_classes() {
    assert_eq!(handler_class(Handler::Breakpoint), HandlerClass::Benign);
    assert_eq!(handler_class(Handler::Spurious), HandlerClass::Benign);
    assert_eq!(handler_class(Handler::Test), HandlerClass::Benign);
    assert_eq!(handler_class(Handler::PageFault), HandlerClass::PageFault);
    assert_eq!(handler_class(Handler::Timer), HandlerClass::Timer);
    for h in [
        Handler::DoubleFault,
        Handler::GeneralProtection,
        Handler::InvalidOpcode,
        Handler::DivideError,
        Handler::StackSegmentFault,
    ] {
        assert_eq!(handler_class(h), HandlerClass::Fatal);
    }
}

#[test]
fn fatal_interrupt_halts_after_one_diagnostic() {
    let (state, effects) = handle_interrupt(CpuState::Running, Handler::GeneralProtection, frame());
    assert_eq!(state, CpuState::Halted);
    assert_eq!(
        effects,
        vec![HandlerEffect::Log(Diagnostic {
            handler: Handler::GeneralProtection,
            frame: frame(),
            fatal: true
        })]
    );
    for h in [Handler::Timer, Handler::Breakpoint, Handler::DoubleFault] {
        let (next, more) = handle_interrupt(state, h, frame());
        assert_eq!(next, CpuState::Halted);
        assert!(more.is_empty());
    }
}

#[test]
fn benign_interrupts_log_and_resume() {
    for h in [Handler::Breakpoint, Handler::Spurious, Handler::Test, Handler::PageFault] {
        let (state, effects) = handle_interrupt(CpuState::Running, h, frame());
        assert_eq!(state, CpuState::Running);
        assert_eq!(
            effects,
            vec![HandlerEffect::Log(Diagnostic { handler: h, frame: frame(), fatal: false })]
        );
    }
}

#[test]
fn timer_acknowledges_and_resumes() {
    let (state, effects) = handle_interrupt(CpuState::Running, Handler::Timer, frame());
    assert_eq!(state, CpuState::Running);
    assert_eq!(effects, vec![HandlerEffect::Write(RegisterWrite { offset: 0xB0, value: 0 })]);
}

#[test]
fn boot_sequence_completes_in_order() {
    let steps = boot_sequence();
    let end = run_boot_sequence(initial_boot_state(), &steps);
    assert_eq!(
        end,
        Some(BootState {
            descriptor_table_loaded: true,
            task_register_loaded: true,
            idt: IdtPhase::Active
        })
    );
}

#[test]
fn interrupt_table_waits_for_the_task_register() {
    let s = boot_step(initial_boot_state(), BootStep::BuildInterruptTable).unwrap();
    assert_eq!(boot_step(s, BootStep::LoadInterruptTable), None);
    assert_eq!(boot_step(s, BootStep::EnableInterrupts), None);
    assert_eq!(boot_step(s, BootStep::LoadTaskRegister), None);
    assert_eq!(boot_step(s, BootStep::BuildInterruptTable), None);
    let steps = vec![
        BootStep::LoadDescriptorTable,
        BootStep::BuildInterruptTable,
        BootStep::LoadInterruptTable,
    ];
    assert_eq!(run_boot_sequence(initial_boot_state(), &steps), None);
}

#[test]
fn tables_are_loaded_once() {
    let steps = vec![BootStep::LoadDescriptorTable, BootStep::LoadDescriptorTable];
    assert_eq!(run_boot_sequence(initial_boot_state(), &steps), None);
}
