use boykernel::apic::{
    beep_divisor, calibrated_ticks_per_ms, calibration_elapsed, calibration_start_write,
    calibration_timer_writes, end_of_interrupt_write, legacy_pic_mask_writes,
    local_apic_enable_writes, nmi_source_write, pit_reload_for_ms, redirection_high,
    redirection_low, redirection_writes, speaker_off_write, speaker_on_writes,
    timer_initial_count_write, PortWrite, RegisterWrite, TIMER_MAX_COUNT,
};

#[test]
fn legacy_controllers_fully_masked() {
    assert_eq!(
        legacy_pic_mask_writes(),
        vec![PortWrite { port: 0xA1, value: 0xFF }, PortWrite { port: 0x21, value: 0xFF }]
    );
}

#[test]
fn local_controller_enable_sequence() {
    assert_eq!(
        local_apic_enable_writes(),
        vec![
            RegisterWrite { offset: 0xF0, value: 0x1FF },
            RegisterWrite { offset: 0x3E0, value: 0b0011 },
            RegisterWrite { offset: 0x320, value: 32 | (1 << 17) },
        ]
    );
    assert_eq!(nmi_source_write(), RegisterWrite { offset: 0x350, value: 0x400 });
    assert_eq!(end_of_interrupt_write(), RegisterWrite { offset: 0xB0, value: 0 });
    assert_eq!(
        calibration_start_write(),
        RegisterWrite { offset: 0x380, value: 0xFFFF_FFFF }
    );
    assert_eq!(timer_initial_count_write(1234), RegisterWrite { offset: 0x380, value: 1234 });
}

#[test]
fn calibration_divides_elapsed_ticks_by_duration() {
    let remaining = TIMER_MAX_COUNT - 500_000;
    assert_eq!(calibrated_ticks_per_ms(TIMER_MAX_COUNT, remaining, 50), 10_000);
    assert_eq!(calibrated_ticks_per_ms(1000, 1, 7), 142);
    assert_eq!(calibrated_ticks_per_ms(1000, 1000, 50), 0);
    assert_eq!(calibrated_ticks_per_ms(10, 20, 50), 0);
}

#[test]
fn calibration_interval_programming() {
    assert_eq!(pit_reload_for_ms(50), 59_659);
    assert_eq!(pit_reload_for_ms(1), 1_193);
    assert_eq!(
        calibration_timer_writes(59_659, 0xFF),
        vec![
            PortWrite { port: 0x61, value: 0xFD },
            PortWrite { port: 0x43, value: 0xB4 },
            PortWrite { port: 0x42, value: 0x0B },
            PortWrite { port: 0x42, value: 0xE9 },
        ]
    );
    assert!(calibration_elapsed(0x20));
    assert!(!calibration_elapsed(0xDF));
}

#[test]
fn tone_programming() {
    assert_eq!(beep_divisor(440), 2711);
    assert_eq!(
        speaker_on_writes(2711, 0x10),
        vec![
            PortWrite { port: 0x43, value: 0xB6 },
            PortWrite { port: 0x42, value: 0x97 },
            PortWrite { port: 0x42, value: 0x0A },
            PortWrite { port: 0x61, value: 0x13 },
        ]
    );
    assert_eq!(speaker_off_write(0x13), PortWrite { port: 0x61, value: 0x10 });
}

#[test]
fn active_low_level_sets_bits_13_and_15() {
    let low = redirection_low(0x30, 0b1111);
    assert_eq!(low, 0x30 | (1 << 13) | (1 << 15));
    assert_eq!(low & !0xFF, (1 << 13) | (1 << 15));
}

#[test]
fn default_polarity_and_trigger_set_neither_bit() {
    assert_eq!(redirection_low(0x30, 0), 0x30);
    assert_eq!(redirection_low(0x21, 0b0101), 0x21);
    assert_eq!(redirection_low(0x21, 0b0011), 0x21 | (1 << 13));
    assert_eq!(redirection_low(0x21, 0b1100), 0x21 | (1 << 15));
}

#[test]
fn redirection_entry_write_order() {
    assert_eq!(redirection_high(0xFF), 0xFF00_0000);
    assert_eq!(
        redirection_writes(9, 0x39, 0b1111),
        vec![
            RegisterWrite { offset: 0x00, value: 0x22 },
            RegisterWrite { offset: 0x10, value: 0x39 | 0xA000 },
            RegisterWrite { offset: 0x00, value: 0x23 },
            RegisterWrite { offset: 0x10, value: 0xFF00_0000 },
        ]
    );
}
