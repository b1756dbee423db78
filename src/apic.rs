//! Replacing the legacy interrupt controller by the local and IO advanced
//! controllers: the register writes in their required order, timer
//! calibration, and redirection entries. Each write is returned as a value;
//! the caller performs it on the hardware in the order given.

use vstd::prelude::*;

verus! {

/// Physical base of the local controller's registers.
pub const LOCAL_APIC_BASE: u64 = 0xFEE0_0000;

pub const REG_EOI: u32 = 0xB0;
pub const REG_SPURIOUS: u32 = 0xF0;
pub const REG_LVT_TIMER: u32 = 0x320;
pub const REG_LVT_LINT1: u32 = 0x350;
pub const REG_TIMER_INITIAL_COUNT: u32 = 0x380;
pub const REG_TIMER_CURRENT_COUNT: u32 = 0x390;
pub const REG_TIMER_DIVIDE: u32 = 0x3E0;

/// Software-enable bit of the spurious-interrupt register.
pub const APIC_SOFTWARE_ENABLE: u32 = 0x100;
/// Timer vector-table bit selecting periodic mode.
pub const TIMER_PERIODIC: u32 = 0x2_0000;
/// Divide configuration for a divisor of 16.
pub const TIMER_DIVIDE_BY_16: u32 = 0b0011;
/// Delivery mode NMI in a local vector-table entry.
pub const DELIVERY_NMI: u32 = 0x400;
/// Value the timer counter starts from during calibration.
pub const TIMER_MAX_COUNT: u32 = 0xFFFF_FFFF;

/// Vector of the local timer interrupt.
pub const TIMER_VECTOR: u8 = 32;
/// Vector the local controller reports spurious interrupts on.
pub const SPURIOUS_VECTOR: u8 = 255;

/// Command ports of the two chained legacy controller chips' mask registers.
pub const PIC_MASTER_DATA: u16 = 0x21;
pub const PIC_SLAVE_DATA: u16 = 0xA1;

/// Legacy interval timer ports.
pub const PIT_CHANNEL2: u16 = 0x42;
pub const PIT_COMMAND: u16 = 0x43;
/// System-control port enabling timer channel 2 and the speaker.
pub const SYSTEM_CONTROL_PORT: u16 = 0x61;
/// Input frequency of the legacy interval timer.
pub const PIT_FREQUENCY_HZ: u32 = 1_193_180;
/// Channel 2, low byte then high byte, rate-generator mode, binary.
pub const PIT_CHANNEL2_RATE_GENERATOR: u8 = 0xB4;
/// Channel 2, low byte then high byte, square-wave mode, binary.
pub const PIT_CHANNEL2_SQUARE_WAVE: u8 = 0xB6;
/// Duration of the calibration interval.
pub const CALIBRATION_MS: u32 = 50;

/// IO controller register-select and data-window offsets.
pub const IOAPIC_REG_SELECT: u32 = 0x00;
pub const IOAPIC_REG_WINDOW: u32 = 0x10;
/// Register index of the first redirection-table entry.
pub const IOREDTBL_BASE: u32 = 0x10;
/// Number of redirection entries whose register index fits in one byte.
pub const MAX_REDIRECTION_ENTRIES: u32 = 120;
/// Destination field value addressing every processor.
pub const BROADCAST_DESTINATION: u8 = 0xFF;
pub const REDIRECTION_ACTIVE_LOW: u32 = 0x2000;
pub const REDIRECTION_LEVEL_TRIGGERED: u32 = 0x8000;

/// A 32-bit write at `offset` from a controller's register base.
#[derive(PartialEq, Eq, Structural, Clone, Copy, Debug)]
pub struct RegisterWrite {
    pub offset: u32,
    pub value: u32,
}

/// A byte written to an I/O port.
#[derive(PartialEq, Eq, Structural, Clone, Copy, Debug)]
pub struct PortWrite {
    pub port: u16,
    pub value: u8,
}

/// Masks every line of both legacy controller chips.
pub fn legacy_pic_mask_writes() -> (r: Vec<PortWrite>)
    ensures
        r@ == seq![
            PortWrite { port: PIC_SLAVE_DATA, value: 0xFF },
            PortWrite { port: PIC_MASTER_DATA, value: 0xFF },
        ],
{
    let mut r: Vec<PortWrite> = Vec::new();
    r.push(PortWrite { port: PIC_SLAVE_DATA, value: 0xFF });
    r.push(PortWrite { port: PIC_MASTER_DATA, value: 0xFF });
    r
}

/// Enables the local controller with the spurious vector, sets the timer
/// divisor, then selects the periodic timer on `TIMER_VECTOR`.
pub fn local_apic_enable_writes() -> (r: Vec<RegisterWrite>)
    ensures
        r@ == seq![
            RegisterWrite { offset: REG_SPURIOUS, value: 0x1FF },
            RegisterWrite { offset: REG_TIMER_DIVIDE, value: TIMER_DIVIDE_BY_16 },
            RegisterWrite { offset: REG_LVT_TIMER, value: 0x2_0020 },
        ],
{
    let mut r: Vec<RegisterWrite> = Vec::new();
    r.push(RegisterWrite { offset: REG_SPURIOUS, value: APIC_SOFTWARE_ENABLE | SPURIOUS_VECTOR as u32 });
    r.push(RegisterWrite { offset: REG_TIMER_DIVIDE, value: TIMER_DIVIDE_BY_16 });
    r.push(RegisterWrite { offset: REG_LVT_TIMER, value: TIMER_VECTOR as u32 | TIMER_PERIODIC });
    assert(APIC_SOFTWARE_ENABLE | SPURIOUS_VECTOR as u32 == 0x1FF) by (bit_vector);
    assert(TIMER_VECTOR as u32 | TIMER_PERIODIC == 0x2_0020) by (bit_vector);
    r
}

/// Delivers the platform-management line LINT1 as a non-maskable interrupt.
pub fn nmi_source_write() -> (r: RegisterWrite)
    ensures
        r == (RegisterWrite { offset: REG_LVT_LINT1, value: DELIVERY_NMI }),
{
    RegisterWrite { offset: REG_LVT_LINT1, value: DELIVERY_NMI }
}

/// Acknowledges the interrupt being handled.
pub fn end_of_interrupt_write() -> (r: RegisterWrite)
    ensures
        r == (RegisterWrite { offset: REG_EOI, value: 0 }),
{
    RegisterWrite { offset: REG_EOI, value: 0 }
}

/// Starts the timer counter from its maximum, at the start of calibration.
pub fn calibration_start_write() -> (r: RegisterWrite)
    ensures
        r == (RegisterWrite { offset: REG_TIMER_INITIAL_COUNT, value: TIMER_MAX_COUNT }),
{
    RegisterWrite { offset: REG_TIMER_INITIAL_COUNT, value: TIMER_MAX_COUNT }
}

/// Sets the periodic tick from the calibrated count.
pub fn timer_initial_count_write(ticks: u32) -> (r: RegisterWrite)
    ensures
        r == (RegisterWrite { offset: REG_TIMER_INITIAL_COUNT, value: ticks }),
{
    RegisterWrite { offset: REG_TIMER_INITIAL_COUNT, value: ticks }
}

/// Reload value of the legacy timer for an interval of `ms` milliseconds.
pub fn pit_reload_for_ms(ms: u32) -> (r: u16)
    requires
        1 <= ms <= 54,
    ensures
        r as int == PIT_FREQUENCY_HZ as int * ms as int / 1000,
{
    assert(PIT_FREQUENCY_HZ as int * ms as int <= 1_193_180 * 54) by (nonlinear_arith)
        requires
            ms <= 54,
    ;
    let x = PIT_FREQUENCY_HZ as u64 * ms as u64 / 1000;
    x as u16
}

/// Divisor of the legacy timer for a tone of `freq` hertz.
pub fn beep_divisor(freq: u32) -> (r: u32)
    requires
        freq > 0,
    ensures
        r == PIT_FREQUENCY_HZ / freq,
{
    PIT_FREQUENCY_HZ / freq
}

/// Programs channel 2 for one calibration interval of `reload` input clocks,
/// in rate-generator mode, with its input enabled and the speaker off;
/// `control` is the value the system-control port held before.
pub fn calibration_timer_writes(reload: u16, control: u8) -> (r: Vec<PortWrite>)
    ensures
        r@ == seq![
            PortWrite { port: SYSTEM_CONTROL_PORT, value: (control & 0xFC) | 0x01 },
            PortWrite { port: PIT_COMMAND, value: PIT_CHANNEL2_RATE_GENERATOR },
            PortWrite { port: PIT_CHANNEL2, value: (reload % 256) as u8 },
            PortWrite { port: PIT_CHANNEL2, value: (reload / 256) as u8 },
        ],
{
    let mut r: Vec<PortWrite> = Vec::new();
    r.push(PortWrite { port: SYSTEM_CONTROL_PORT, value: (control & 0xFC) | 0x01 });
    r.push(PortWrite { port: PIT_COMMAND, value: PIT_CHANNEL2_RATE_GENERATOR });
    r.push(PortWrite { port: PIT_CHANNEL2, value: (reload % 256) as u8 });
    r.push(PortWrite { port: PIT_CHANNEL2, value: (reload / 256) as u8 });
    r
}

/// Whether the system-control port reports that timer channel 2 has run out.
pub fn calibration_elapsed(control: u8) -> (r: bool)
    ensures
        r == (control & 0x20 != 0),
{
    control & 0x20 != 0
}

/// Timer ticks per millisecond, from the counter value `start` it was set to,
/// the value `remaining` read after `duration_ms` milliseconds; zero where the
/// counter did not go down.
pub fn calibrated_ticks_per_ms(start: u32, remaining: u32, duration_ms: u32) -> (r: u32)
    requires
        duration_ms > 0,
    ensures
        remaining <= start ==> r == (start - remaining) / (duration_ms as int),
        remaining > start ==> r == 0,
{
    if remaining <= start {
        (start - remaining) / duration_ms
    } else {
        0
    }
}

/// Starts a tone, with channel 2 in square-wave mode on `divisor` and then the
/// channel-enable and sound-output bits set on the system-control value `control`.
pub fn speaker_on_writes(divisor: u32, control: u8) -> (r: Vec<PortWrite>)
    ensures
        r@ == seq![
            PortWrite { port: PIT_COMMAND, value: PIT_CHANNEL2_SQUARE_WAVE },
            PortWrite { port: PIT_CHANNEL2, value: (divisor % 256) as u8 },
            PortWrite { port: PIT_CHANNEL2, value: ((divisor / 256) % 256) as u8 },
            PortWrite { port: SYSTEM_CONTROL_PORT, value: control | 3 },
        ],
{
    let mut r: Vec<PortWrite> = Vec::new();
    r.push(PortWrite { port: PIT_COMMAND, value: PIT_CHANNEL2_SQUARE_WAVE });
    r.push(PortWrite { port: PIT_CHANNEL2, value: (divisor % 256) as u8 });
    r.push(PortWrite { port: PIT_CHANNEL2, value: ((divisor / 256) % 256) as u8 });
    r.push(PortWrite { port: SYSTEM_CONTROL_PORT, value: control | 3 });
    r
}

/// Stops the tone, with the channel-enable and sound-output bits cleared on `control`.
pub fn speaker_off_write(control: u8) -> (r: PortWrite)
    ensures
        r == (PortWrite { port: SYSTEM_CONTROL_PORT, value: control & 0xFC }),
{
    PortWrite { port: SYSTEM_CONTROL_PORT, value: control & 0xFC }
}

/// Polarity field of interrupt-source flags: active low.
pub open spec fn flags_active_low(flags: u16) -> bool {
    flags & 3 == 3
}

/// Trigger-mode field of interrupt-source flags: level triggered.
pub open spec fn flags_level_triggered(flags: u16) -> bool {
    (flags >> 2u16) & 3 == 3
}

pub open spec fn redirection_low_spec(vector: u8, flags: u16) -> u32 {
    vector as u32 | (if flags_active_low(flags) {
        REDIRECTION_ACTIVE_LOW
    } else {
        0
    }) | (if flags_level_triggered(flags) {
        REDIRECTION_LEVEL_TRIGGERED
    } else {
        0
    })
}

/// Low half of a redirection entry: fixed delivery of `vector`, with the
/// polarity and trigger mode taken from the interrupt-source flags.
pub fn redirection_low(vector: u8, flags: u16) -> (r: u32)
    ensures
        r == redirection_low_spec(vector, flags),
{
    let polarity: u32 = if flags & 3 == 3 {
        REDIRECTION_ACTIVE_LOW
    } else {
        0
    };
    let trigger: u32 = if (flags >> 2u16) & 3 == 3 {
        REDIRECTION_LEVEL_TRIGGERED
    } else {
        0
    };
    vector as u32 | polarity | trigger
}

/// High half of a redirection entry: the destination processor field.
pub fn redirection_high(destination: u8) -> (r: u32)
    ensures
        r == (destination as u32) * 0x100_0000,
{
    assert((destination as u32) * 0x100_0000 <= 0xFF00_0000) by (nonlinear_arith)
        requires
            destination <= 0xFF,
    ;
    (destination as u32) * 0x100_0000
}

/// An active-low, level-triggered source sets exactly bits 13 and 15 beside
/// the vector field; a source with default polarity and trigger sets neither.
pub proof fn lemma_redirection_flag_bits(vector: u8, flags: u16)
    ensures
        flags_active_low(flags) && flags_level_triggered(flags) ==> redirection_low_spec(
            vector,
            flags,
        ) & 0xFF == vector as u32 && redirection_low_spec(vector, flags) & 0xFFFF_FF00 == 0xA000,
        flags & 0xF == 0 ==> redirection_low_spec(vector, flags) == vector as u32,
{
    let v = vector as u32;
    assert(v <= 0xFF);
    assert((v | 0x2000u32 | 0x8000u32) & 0xFF == v && (v | 0x2000u32 | 0x8000u32) & 0xFFFF_FF00
        == 0xA000) by (bit_vector)
        requires
            v <= 0xFF,
    ;
    assert(flags & 0xF == 0 ==> flags & 3 == 0 && (flags >> 2u16) & 3 == 0) by (bit_vector);
    assert(v | 0u32 | 0u32 == v) by (bit_vector);
}

/// The IO controller writes that program redirection entry `index`.
pub open spec fn redirection_writes_spec(index: u32, vector: u8, flags: u16) -> Seq<RegisterWrite> {
    seq![
        RegisterWrite { offset: IOAPIC_REG_SELECT, value: (IOREDTBL_BASE + 2 * index) as u32 },
        RegisterWrite { offset: IOAPIC_REG_WINDOW, value: redirection_low_spec(vector, flags) },
        RegisterWrite { offset: IOAPIC_REG_SELECT, value: (IOREDTBL_BASE + 2 * index + 1) as u32 },
        RegisterWrite { offset: IOAPIC_REG_WINDOW, value: 0xFF00_0000 },
    ]
}

/// Selects then writes the low half of redirection entry `index`, then
/// selects then writes its high half, the destination being every processor.
pub fn redirection_writes(index: u32, vector: u8, flags: u16) -> (r: Vec<RegisterWrite>)
    requires
        index < MAX_REDIRECTION_ENTRIES,
    ensures
        r@ == redirection_writes_spec(index, vector, flags),
{
    let mut r: Vec<RegisterWrite> = Vec::new();
    r.push(RegisterWrite { offset: IOAPIC_REG_SELECT, value: IOREDTBL_BASE + 2 * index });
    r.push(RegisterWrite { offset: IOAPIC_REG_WINDOW, value: redirection_low(vector, flags) });
    r.push(RegisterWrite { offset: IOAPIC_REG_SELECT, value: IOREDTBL_BASE + 2 * index + 1 });
    r.push(
        RegisterWrite { offset: IOAPIC_REG_WINDOW, value: redirection_high(BROADCAST_DESTINATION) },
    );
    r
}

} // verus!
