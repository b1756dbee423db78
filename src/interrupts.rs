//! The interrupt vector table, the order in which the CPU structures are
//! installed, and what each handler does.

use vstd::prelude::*;
use crate::apic::{RegisterWrite, end_of_interrupt_write, REG_EOI, TIMER_VECTOR, SPURIOUS_VECTOR};

verus! {

pub const DIVIDE_ERROR_VECTOR: u8 = 0;
pub const BREAKPOINT_VECTOR: u8 = 3;
pub const INVALID_OPCODE_VECTOR: u8 = 6;
pub const DOUBLE_FAULT_VECTOR: u8 = 8;
pub const STACK_SEGMENT_FAULT_VECTOR: u8 = 12;
pub const GENERAL_PROTECTION_VECTOR: u8 = 13;
pub const PAGE_FAULT_VECTOR: u8 = 14;
/// Vector raised by software to check that delivery works.
pub const TEST_VECTOR: u8 = 42;
/// Number of entries of the interrupt vector table.
pub const IDT_ENTRIES: usize = 256;
/// Slot of the task-state segment's stack table that the double-fault
/// handler runs on.
pub const DOUBLE_FAULT_IST_INDEX: u16 = 0;

/// The handlers that the table installs.
#[derive(PartialEq, Eq, Structural, Clone, Copy, Debug)]
pub enum Handler {
    DivideError,
    Breakpoint,
    InvalidOpcode,
    DoubleFault,
    StackSegmentFault,
    GeneralProtection,
    PageFault,
    Timer,
    Test,
    Spurious,
}

/// How a handler treats the interrupted code.
#[derive(PartialEq, Eq, Structural, Clone, Copy, Debug)]
pub enum HandlerClass {
    /// Logs and resumes.
    Benign,
    /// Logs and resumes; no paging-based recovery is attempted.
    PageFault,
    /// Acknowledges the interrupt controller and resumes.
    Timer,
    /// Logs and halts the processor for good.
    Fatal,
}

pub open spec fn class_of(h: Handler) -> HandlerClass {
    match h {
        Handler::Breakpoint | Handler::Test | Handler::Spurious => HandlerClass::Benign,
        Handler::PageFault => HandlerClass::PageFault,
        Handler::Timer => HandlerClass::Timer,
        _ => HandlerClass::Fatal,
    }
}

/// The class of handler `h`.
pub fn handler_class(h: Handler) -> (r: HandlerClass)
    ensures
        r == class_of(h),
{
    match h {
        Handler::Breakpoint | Handler::Test | Handler::Spurious => HandlerClass::Benign,
        Handler::PageFault => HandlerClass::PageFault,
        Handler::Timer => HandlerClass::Timer,
        _ => HandlerClass::Fatal,
    }
}

/// The handler installed for vector `v`, if any.
pub open spec fn handler_for(v: int) -> Option<Handler> {
    if v == DIVIDE_ERROR_VECTOR {
        Some(Handler::DivideError)
    } else if v == BREAKPOINT_VECTOR {
        Some(Handler::Breakpoint)
    } else if v == INVALID_OPCODE_VECTOR {
        Some(Handler::InvalidOpcode)
    } else if v == DOUBLE_FAULT_VECTOR {
        Some(Handler::DoubleFault)
    } else if v == STACK_SEGMENT_FAULT_VECTOR {
        Some(Handler::StackSegmentFault)
    } else if v == GENERAL_PROTECTION_VECTOR {
        Some(Handler::GeneralProtection)
    } else if v == PAGE_FAULT_VECTOR {
        Some(Handler::PageFault)
    } else if v == TIMER_VECTOR {
        Some(Handler::Timer)
    } else if v == TEST_VECTOR {
        Some(Handler::Test)
    } else if v == SPURIOUS_VECTOR {
        Some(Handler::Spurious)
    } else {
        None
    }
}

/// The handler installed for vector `v`, if any.
pub fn handler_for_vector(v: u8) -> (r: Option<Handler>)
    ensures
        r == handler_for(v as int),
{
    if v == DIVIDE_ERROR_VECTOR {
        Some(Handler::DivideError)
    } else if v == BREAKPOINT_VECTOR {
        Some(Handler::Breakpoint)
    } else if v == INVALID_OPCODE_VECTOR {
        Some(Handler::InvalidOpcode)
    } else if v == DOUBLE_FAULT_VECTOR {
        Some(Handler::DoubleFault)
    } else if v == STACK_SEGMENT_FAULT_VECTOR {
        Some(Handler::StackSegmentFault)
    } else if v == GENERAL_PROTECTION_VECTOR {
        Some(Handler::GeneralProtection)
    } else if v == PAGE_FAULT_VECTOR {
        Some(Handler::PageFault)
    } else if v == TIMER_VECTOR {
        Some(Handler::Timer)
    } else if v == TEST_VECTOR {
        Some(Handler::Test)
    } else if v == SPURIOUS_VECTOR {
        Some(Handler::Spurious)
    } else {
        None
    }
}

/// One entry of the table: its handler and the stack-table slot it switches
/// to, if it switches stacks.
#[derive(PartialEq, Eq, Structural, Clone, Copy, Debug)]
pub struct IdtEntry {
    pub handler: Option<Handler>,
    pub stack_index: Option<u16>,
}

pub open spec fn entry_for(v: int) -> IdtEntry {
    IdtEntry {
        handler: handler_for(v),
        stack_index: if v == DOUBLE_FAULT_VECTOR {
            Some(DOUBLE_FAULT_IST_INDEX)
        } else {
            None
        },
    }
}

/// The 256 entries of the interrupt vector table, indexed by vector.
pub struct InterruptVectorTable {
    pub entries: Vec<IdtEntry>,
}

impl InterruptVectorTable {
    pub open spec fn is_standard(&self) -> bool {
        &&& self.entries@.len() == IDT_ENTRIES
        &&& forall|v: int| 0 <= v < IDT_ENTRIES ==> #[trigger] self.entries@[v] == entry_for(v)
    }
}

/// Builds the interrupt vector table: the exception handlers, the timer, test
/// and spurious vectors, the double fault on its dedicated stack, and no
/// handler elsewhere.
pub fn init_idt() -> (r: InterruptVectorTable)
    ensures
        r.is_standard(),
{
    let mut entries: Vec<IdtEntry> = Vec::new();
    let mut v: usize = 0;
    while v < IDT_ENTRIES
        invariant
            v <= IDT_ENTRIES,
            entries@.len() == v,
            forall|k: int| 0 <= k < v ==> #[trigger] entries@[k] == entry_for(k),
        decreases IDT_ENTRIES - v,
    {
        let stack_index = if v == DOUBLE_FAULT_VECTOR as usize {
            Some(DOUBLE_FAULT_IST_INDEX)
        } else {
            None
        };
        entries.push(IdtEntry { handler: handler_for_vector(v as u8), stack_index });
        v = v + 1;
    }
    InterruptVectorTable { entries }
}

/// Life cycle of the interrupt vector table.
#[derive(PartialEq, Eq, Structural, Clone, Copy, Debug)]
pub enum IdtPhase {
    Unbuilt,
    Built,
    Loaded,
    Active,
}

/// The steps of bringing up the CPU structures.
#[derive(PartialEq, Eq, Structural, Clone, Copy, Debug)]
pub enum BootStep {
    /// Load the segment descriptor table.
    LoadDescriptorTable,
    /// Load the task register with the task-state segment's selector.
    LoadTaskRegister,
    /// Build the interrupt vector table.
    BuildInterruptTable,
    /// Install the interrupt vector table in the CPU.
    LoadInterruptTable,
    /// Set the CPU's interrupt-enable flag.
    EnableInterrupts,
}

/// What has been installed so far.
#[derive(PartialEq, Eq, Structural, Clone, Copy, Debug)]
pub struct BootState {
    pub descriptor_table_loaded: bool,
    pub task_register_loaded: bool,
    pub idt: IdtPhase,
}

/// Nothing installed yet.
pub fn initial_boot_state() -> (r: BootState)
    ensures
        r == (BootState {
            descriptor_table_loaded: false,
            task_register_loaded: false,
            idt: IdtPhase::Unbuilt,
        }),
{
    BootState { descriptor_table_loaded: false, task_register_loaded: false, idt: IdtPhase::Unbuilt }
}

/// The state after step `step`, or `None` where the step is out of order:
/// each structure is installed once, the task register after the descriptor
/// table, the interrupt table only once built and after the task register
/// (so that the double fault's stack is in place), and interrupts last.
pub open spec fn boot_step_spec(s: BootState, step: BootStep) -> Option<BootState> {
    match step {
        BootStep::LoadDescriptorTable => if !s.descriptor_table_loaded {
            Some(BootState { descriptor_table_loaded: true, ..s })
        } else {
            None
        },
        BootStep::LoadTaskRegister => if s.descriptor_table_loaded && !s.task_register_loaded {
            Some(BootState { task_register_loaded: true, ..s })
        } else {
            None
        },
        BootStep::BuildInterruptTable => if s.idt == IdtPhase::Unbuilt {
            Some(BootState { idt: IdtPhase::Built, ..s })
        } else {
            None
        },
        BootStep::LoadInterruptTable => if s.idt == IdtPhase::Built && s.task_register_loaded {
            Some(BootState { idt: IdtPhase::Loaded, ..s })
        } else {
            None
        },
        BootStep::EnableInterrupts => if s.idt == IdtPhase::Loaded {
            Some(BootState { idt: IdtPhase::Active, ..s })
        } else {
            None
        },
    }
}

/// Checks and records one bring-up step.
pub fn boot_step(s: BootState, step: BootStep) -> (r: Option<BootState>)
    ensures
        r == boot_step_spec(s, step),
{
    match step {
        BootStep::LoadDescriptorTable => if !s.descriptor_table_loaded {
            Some(BootState { descriptor_table_loaded: true, ..s })
        } else {
            None
        },
        BootStep::LoadTaskRegister => if s.descriptor_table_loaded && !s.task_register_loaded {
            Some(BootState { task_register_loaded: true, ..s })
        } else {
            None
        },
        BootStep::BuildInterruptTable => if s.idt == IdtPhase::Unbuilt {
            Some(BootState { idt: IdtPhase::Built, ..s })
        } else {
            None
        },
        BootStep::LoadInterruptTable => if s.idt == IdtPhase::Built && s.task_register_loaded {
            Some(BootState { idt: IdtPhase::Loaded, ..s })
        } else {
            None
        },
        BootStep::EnableInterrupts => if s.idt == IdtPhase::Loaded {
            Some(BootState { idt: IdtPhase::Active, ..s })
        } else {
            None
        },
    }
}

/// The bring-up order used at kernel entry.
pub fn boot_sequence() -> (r: Vec<BootStep>)
    ensures
        r@ == seq![
            BootStep::LoadDescriptorTable,
            BootStep::LoadTaskRegister,
            BootStep::BuildInterruptTable,
            BootStep::LoadInterruptTable,
            BootStep::EnableInterrupts,
        ],
{
    let mut r: Vec<BootStep> = Vec::new();
    r.push(BootStep::LoadDescriptorTable);
    r.push(BootStep::LoadTaskRegister);
    r.push(BootStep::BuildInterruptTable);
    r.push(BootStep::LoadInterruptTable);
    r.push(BootStep::EnableInterrupts);
    r
}

/// State after running `steps` from `s`, or `None` at the first step out of order.
pub open spec fn run_boot_steps(s: BootState, steps: Seq<BootStep>) -> Option<BootState>
    decreases steps.len(),
{
    if steps.len() == 0 {
        Some(s)
    } else {
        match boot_step_spec(s, steps[0]) {
            Some(s2) => run_boot_steps(s2, steps.subrange(1, steps.len() as int)),
            None => None,
        }
    }
}

/// Runs `steps` from `s`, stopping at the first one out of order.
pub fn run_boot_sequence(s: BootState, steps: &Vec<BootStep>) -> (r: Option<BootState>)
    ensures
        r == run_boot_steps(s, steps@),
{
    let mut cur = s;
    let mut i: usize = 0;
    assert(steps@.subrange(0, steps@.len() as int) =~= steps@);
    while i < steps.len()
        invariant
            i <= steps@.len(),
            run_boot_steps(s, steps@) == run_boot_steps(
                cur,
                steps@.subrange(i as int, steps@.len() as int),
            ),
        decreases steps@.len() - i,
    {
        let ghost rest = steps@.subrange(i as int, steps@.len() as int);
        assert(rest.subrange(1, rest.len() as int) =~= steps@.subrange(
            i + 1,
            steps@.len() as int,
        ));
        match boot_step(cur, steps[i]) {
            Some(next) => {
                cur = next;
            },
            None => {
                return None;
            },
        }
        i = i + 1;
    }
    Some(cur)
}

/// Whether the task register, which holds the double fault's stack, is
/// loaded whenever the interrupt table is.
pub open spec fn stack_before_table(s: BootState) -> bool {
    (s.idt == IdtPhase::Loaded || s.idt == IdtPhase::Active) ==> s.task_register_loaded
}

/// The bring-up order runs to completion from nothing installed and ends with
/// interrupts enabled; and no order enables interrupts before the task
/// register, which holds the double fault's stack, is loaded.
pub proof fn lemma_boot_order(steps: Seq<BootStep>, s: BootState)
    ensures
        run_boot_steps(
            BootState { descriptor_table_loaded: false, task_register_loaded: false, idt: IdtPhase::Unbuilt },
            seq![
                BootStep::LoadDescriptorTable,
                BootStep::LoadTaskRegister,
                BootStep::BuildInterruptTable,
                BootStep::LoadInterruptTable,
                BootStep::EnableInterrupts,
            ],
        ) == Some(
            BootState { descriptor_table_loaded: true, task_register_loaded: true, idt: IdtPhase::Active },
        ),
        stack_before_table(s) && run_boot_steps(s, steps) is Some ==> stack_before_table(
            run_boot_steps(s, steps)->0,
        ),
    decreases steps.len(),
{
    let q = seq![
        BootStep::LoadDescriptorTable,
        BootStep::LoadTaskRegister,
        BootStep::BuildInterruptTable,
        BootStep::LoadInterruptTable,
        BootStep::EnableInterrupts,
    ];
    let q1 = q.subrange(1, 5);
    let q2 = q1.subrange(1, 4);
    let q3 = q2.subrange(1, 3);
    assert(q1 =~= seq![
        BootStep::LoadTaskRegister,
        BootStep::BuildInterruptTable,
        BootStep::LoadInterruptTable,
        BootStep::EnableInterrupts,
    ]);
    assert(q2 =~= seq![
        BootStep::BuildInterruptTable,
        BootStep::LoadInterruptTable,
        BootStep::EnableInterrupts,
    ]);
    assert(q3 =~= seq![BootStep::LoadInterruptTable, BootStep::EnableInterrupts]);
    assert(q3.subrange(1, 2) =~= seq![BootStep::EnableInterrupts]);
    assert(seq![BootStep::EnableInterrupts].subrange(1, 1) =~= Seq::<BootStep>::empty());
    reveal_with_fuel(run_boot_steps, 6);
    if steps.len() > 0 {
        match boot_step_spec(s, steps[0]) {
            Some(s2) => {
                lemma_boot_order(steps.subrange(1, steps.len() as int), s2);
            },
            None => {},
        }
    }
}

/// The CPU state as seen by the handlers.
#[derive(PartialEq, Eq, Structural, Clone, Copy, Debug)]
pub enum CpuState {
    Running,
    /// Halted for good: no further instruction executes.
    Halted,
}

/// The saved state that the CPU hands to a handler.
#[derive(PartialEq, Eq, Structural, Clone, Copy, Debug)]
pub struct InterruptFrame {
    pub instruction_pointer: u64,
    pub code_segment: u64,
    pub cpu_flags: u64,
    pub stack_pointer: u64,
    pub stack_segment: u64,
    /// The hardware error code, for the vectors that push one.
    pub error_code: Option<u64>,
}

/// A diagnostic line's content: which handler ran, on what frame, and whether
/// the processor is being halted.
#[derive(PartialEq, Eq, Structural, Clone, Copy, Debug)]
pub struct Diagnostic {
    pub handler: Handler,
    pub frame: InterruptFrame,
    pub fatal: bool,
}

/// One effect of a handler, for the caller to carry out in order.
#[derive(PartialEq, Eq, Structural, Clone, Copy, Debug)]
pub enum HandlerEffect {
    /// Write a diagnostic line.
    Log(Diagnostic),
    /// Write a local controller register.
    Write(RegisterWrite),
}

/// The next CPU state and the effects of delivering handler `h` with `frame`.
pub open spec fn interrupt_spec(s: CpuState, h: Handler, frame: InterruptFrame) -> (
    CpuState,
    Seq<HandlerEffect>,
) {
    if s == CpuState::Halted {
        (CpuState::Halted, Seq::empty())
    } else {
        match class_of(h) {
            HandlerClass::Fatal => (
                CpuState::Halted,
                seq![HandlerEffect::Log(Diagnostic { handler: h, frame, fatal: true })],
            ),
            HandlerClass::Timer => (
                CpuState::Running,
                seq![HandlerEffect::Write(RegisterWrite { offset: REG_EOI, value: 0 })],
            ),
            _ => (
                CpuState::Running,
                seq![HandlerEffect::Log(Diagnostic { handler: h, frame, fatal: false })],
            ),
        }
    }
}

/// Runs handler `h` on `frame`: benign vectors and page faults log and
/// resume, the timer acknowledges the controller and resumes, fatal vectors
/// log once and halt; a halted processor does nothing more.
pub fn handle_interrupt(s: CpuState, h: Handler, frame: InterruptFrame) -> (r: (
    CpuState,
    Vec<HandlerEffect>,
))
    ensures
        (r.0, r.1@) == interrupt_spec(s, h, frame),
{
    let mut effects: Vec<HandlerEffect> = Vec::new();
    if s == CpuState::Halted {
        return (CpuState::Halted, effects);
    }
    match handler_class(h) {
        HandlerClass::Fatal => {
            effects.push(HandlerEffect::Log(Diagnostic { handler: h, frame, fatal: true }));
            (CpuState::Halted, effects)
        },
        HandlerClass::Timer => {
            effects.push(HandlerEffect::Write(end_of_interrupt_write()));
            (CpuState::Running, effects)
        },
        _ => {
            effects.push(HandlerEffect::Log(Diagnostic { handler: h, frame, fatal: false }));
            (CpuState::Running, effects)
        },
    }
}

/// State and effects after delivering `events` in order from `s`.
pub open spec fn run_interrupts(s: CpuState, events: Seq<(Handler, InterruptFrame)>) -> (
    CpuState,
    Seq<HandlerEffect>,
)
    decreases events.len(),
{
    if events.len() == 0 {
        (s, Seq::empty())
    } else {
        let (s2, out) = interrupt_spec(s, events[0].0, events[0].1);
        let (s3, rest) = run_interrupts(s2, events.subrange(1, events.len() as int));
        (s3, out + rest)
    }
}

proof fn lemma_halted_stays_silent(events: Seq<(Handler, InterruptFrame)>)
    ensures
        run_interrupts(CpuState::Halted, events) == (CpuState::Halted, Seq::<HandlerEffect>::empty()),
    decreases events.len(),
{
    if events.len() > 0 {
        lemma_halted_stays_silent(events.subrange(1, events.len() as int));
        assert(Seq::<HandlerEffect>::empty() + Seq::<HandlerEffect>::empty() =~= Seq::<
            HandlerEffect,
        >::empty());
    }
}

/// A fatal interrupt on a running processor halts it for good: whatever is
/// delivered afterwards, exactly one diagnostic is written, the fatal one,
/// and the processor stays halted.
pub proof fn lemma_fatal_interrupt_halts(
    h: Handler,
    frame: InterruptFrame,
    later: Seq<(Handler, InterruptFrame)>,
)
    requires
        class_of(h) == HandlerClass::Fatal,
    ensures
        run_interrupts(CpuState::Running, seq![(h, frame)] + later) == (
            CpuState::Halted,
            seq![HandlerEffect::Log(Diagnostic { handler: h, frame, fatal: true })],
        ),
{
    let events = seq![(h, frame)] + later;
    assert(events.subrange(1, events.len() as int) =~= later);
    lemma_halted_stays_silent(later);
    assert(seq![HandlerEffect::Log(Diagnostic { handler: h, frame, fatal: true })] + Seq::<
        HandlerEffect,
    >::empty() =~= seq![HandlerEffect::Log(Diagnostic { handler: h, frame, fatal: true })]);
}

} // verus!
