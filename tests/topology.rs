use boykernel::apic::RegisterWrite;
use boykernel::topology::{first_io_apic, parse_madt, routing_writes, MadtEntry, MadtError};

fn table(entries: &[&[u8]]) -> Vec<u8> {
    let mut b = vec![0u8; 44];
    b[0..4].copy_from_slice(b"APIC");
    b[36..40].copy_from_slice(&0xFEE0_0000u32.to_le_bytes());
    for e in entries {
        b.extend_from_slice(e);
    }
    let len = b.len() as u32;
    b[4..8].copy_from_slice(&len.to_le_bytes());
    b
}

const LOCAL: [u8; 8] = [0, 8, 0, 0, 1, 0, 0, 0];
const IO: [u8; 12] = [1, 12, 2, 0, 0x00, 0x00, 0xC0, 0xFE, 0, 0, 0, 0];
const OVERRIDE_TIMER: [u8; 10] = [2, 10, 0, 0, 2, 0, 0, 0, 0, 0];
const OVERRIDE_SCI: [u8; 10] = [2, 10, 0, 9, 9, 0, 0, 0, 0x0F, 0];
const UNKNOWN: [u8; 6] = [4, 6, 0xFF, 5, 0, 1];

#[test]
fn parses_each_entry_kind() {
    let t = parse_madt(&table(&[&LOCAL, &IO, &OVERRIDE_TIMER, &UNKNOWN, &OVERRIDE_SCI])).unwrap();
    assert_eq!(t.local_apic_address, 0xFEE0_0000);
    assert_eq!(
        t.entries,
        vec![
            MadtEntry::LocalApic { processor_id: 0, apic_id: 0, flags: 1 },
            MadtEntry::IoApic { id: 2, address: 0xFEC0_0000, gsi_base: 0 },
            MadtEntry::InterruptSourceOverride { bus: 0, source_irq: 0, gsi: 2, flags: 0 },
            MadtEntry::Other { kind: 4, length: 6 },
            MadtEntry::InterruptSourceOverride { bus: 0, source_irq: 9, gsi: 9, flags: 0x0F },
        ]
    );
    assert_eq!(first_io_apic(&t.entries), Some((0xFEC0_0000, 0)));
}

#[test]
fn empty_table_has_no_entries() {
    let t = parse_madt(&table(&[])).unwrap();
    assert!(t.entries.is_empty());
    assert_eq!(first_io_apic(&t.entries), None);
}

#[test]
fn rejects_bad_signature() {
    let mut b = table(&[&LOCAL]);
    b[0] = b'X';
    assert_eq!(parse_madt(&b).err(), Some(MadtError::BadSignature));
}

#[test]
fn rejects_short_table() {
    assert_eq!(parse_madt(b"APIC").err(), Some(MadtError::TooShort));
    let mut b = table(&[&LOCAL]);
    b[4..8].copy_from_slice(&100u32.to_le_bytes());
    assert_eq!(parse_madt(&b).err(), Some(MadtError::TooShort));
}

#[test]
fn rejects_truncated_entry() {
    let short_io: [u8; 8] = [1, 8, 2, 0, 0, 0, 0xC0, 0xFE];
    assert_eq!(parse_madt(&table(&[&short_io])).err(), Some(MadtError::BadEntry));
    let zero_len: [u8; 2] = [7, 0];
    assert_eq!(parse_madt(&table(&[&zero_len])).err(), Some(MadtError::BadEntry));
    let mut b = table(&[&LOCAL]);
    b[45] = 20;
    assert_eq!(parse_madt(&b).err(), Some(MadtError::BadEntry));
}

#[test]
fn routes_each_override_through_the_io_controller() {
    let t = parse_madt(&table(&[&LOCAL, &IO, &OVERRIDE_TIMER, &UNKNOWN, &OVERRIDE_SCI])).unwrap();
    let w = routing_writes(&t.entries, 0, 0x30);
    assert_eq!(
        w,
        vec![
            RegisterWrite { offset: 0x00, value: 0x14 },
            RegisterWrite { offset: 0x10, value: 0x30 },
            RegisterWrite { offset: 0x00, value: 0x15 },
            RegisterWrite { offset: 0x10, value: 0xFF00_0000 },
            RegisterWrite { offset: 0x00, value: 0x22 },
            RegisterWrite { offset: 0x10, value: 0x39 | 0xA000 },
            RegisterWrite { offset: 0x00, value: 0x23 },
            RegisterWrite { offset: 0x10, value: 0xFF00_0000 },
        ]
    );
}

#[test]
fn overrides_outside_the_controller_are_not_routed() {
    let t = parse_madt(&table(&[&IO, &OVERRIDE_TIMER])).unwrap();
    assert!(routing_writes(&t.entries, 24, 0x30).is_empty());
    let t = parse_madt(&table(&[&IO, &OVERRIDE_SCI])).unwrap();
    assert!(routing_writes(&t.entries, 0, 0xFF).is_empty());
    assert_eq!(routing_writes(&t.entries, 0, 0xF6).len(), 4);
}
