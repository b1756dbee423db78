//! The firmware's interrupt-topology table: processors, IO controllers and
//! interrupt-source overrides, and the redirection writes that route each
//! overridden source through its IO controller.

use vstd::prelude::*;
use crate::bytes::{le_u16, le_u32, read_u16, read_u32};
use crate::apic::{RegisterWrite, MAX_REDIRECTION_ENTRIES, redirection_writes, redirection_writes_spec};

verus! {

/// Offset of the first entry: the common table header, the local
/// controller's address and the flags word.
pub const MADT_ENTRIES_OFFSET: usize = 44;

/// One entry of the topology table.
#[allow(inconsistent_fields)]
#[derive(PartialEq, Eq, Structural, Clone, Copy, Debug)]
pub enum MadtEntry {
    LocalApic { processor_id: u8, apic_id: u8, flags: u32 },
    IoApic { id: u8, address: u32, gsi_base: u32 },
    InterruptSourceOverride { bus: u8, source_irq: u8, gsi: u32, flags: u16 },
    /// An entry of a type this core does not use.
    Other { kind: u8, length: u8 },
}

/// Why a topology table was rejected.
#[derive(PartialEq, Eq, Structural, Clone, Copy, Debug)]
pub enum MadtError {
    /// Shorter than its fixed part, or than the length it declares.
    TooShort,
    /// The signature is not `APIC`.
    BadSignature,
    /// An entry's length is too small for its type or runs past the table.
    BadEntry,
}

/// The parsed table: the local controller's address and the entries in order.
pub struct ApicTopology {
    pub local_apic_address: u32,
    pub entries: Vec<MadtEntry>,
}

/// Least length of an entry of type `kind`.
pub open spec fn min_entry_len(kind: u8) -> nat {
    if kind == 0 {
        8
    } else if kind == 1 {
        12
    } else if kind == 2 {
        10
    } else {
        2
    }
}

/// The entry at offset `o` of `s`.
pub open spec fn entry_at(s: Seq<u8>, o: int) -> MadtEntry {
    let kind = s[o];
    if kind == 0 {
        MadtEntry::LocalApic { processor_id: s[o + 2], apic_id: s[o + 3], flags: le_u32(s, o + 4) as u32 }
    } else if kind == 1 {
        MadtEntry::IoApic {
            id: s[o + 2],
            address: le_u32(s, o + 4) as u32,
            gsi_base: le_u32(s, o + 8) as u32,
        }
    } else if kind == 2 {
        MadtEntry::InterruptSourceOverride {
            bus: s[o + 2],
            source_irq: s[o + 3],
            gsi: le_u32(s, o + 4) as u32,
            flags: le_u16(s, o + 8) as u16,
        }
    } else {
        MadtEntry::Other { kind, length: s[o + 1] }
    }
}

/// The entries of `s` from offset `o` up to `end`.
pub open spec fn entries_from(s: Seq<u8>, o: nat, end: nat) -> Result<Seq<MadtEntry>, MadtError>
    decreases end - o,
{
    if o >= end {
        Ok(Seq::empty())
    } else if o + 2 > end || (s[o + 1int] as nat) < min_entry_len(s[o as int]) || o + s[o + 1int]
        > end {
        Err(MadtError::BadEntry)
    } else {
        match entries_from(s, (o + s[o + 1int]) as nat, end) {
            Ok(rest) => Ok(seq![entry_at(s, o as int)] + rest),
            Err(e) => Err(e),
        }
    }
}

/// What the table `s` holds, or why it is rejected.
pub open spec fn madt_spec(s: Seq<u8>) -> Result<(u32, Seq<MadtEntry>), MadtError> {
    if s.len() < MADT_ENTRIES_OFFSET {
        Err(MadtError::TooShort)
    } else if !(s[0] == 0x41 && s[1] == 0x50 && s[2] == 0x49 && s[3] == 0x43) {
        Err(MadtError::BadSignature)
    } else if le_u32(s, 4) < MADT_ENTRIES_OFFSET || le_u32(s, 4) > s.len() {
        Err(MadtError::TooShort)
    } else {
        match entries_from(s, MADT_ENTRIES_OFFSET as nat, le_u32(s, 4)) {
            Ok(es) => Ok((le_u32(s, 36) as u32, es)),
            Err(e) => Err(e),
        }
    }
}

/// Parses the topology table; entries of unknown type are kept as `Other`.
pub fn parse_madt(table: &[u8]) -> (r: Result<ApicTopology, MadtError>)
    ensures
        match r {
            Ok(t) => madt_spec(table@) == Ok::<(u32, Seq<MadtEntry>), MadtError>(
                (t.local_apic_address, t.entries@),
            ),
            Err(e) => madt_spec(table@) == Err::<(u32, Seq<MadtEntry>), MadtError>(e),
        },
{
    let len = table.len();
    if len < MADT_ENTRIES_OFFSET {
        return Err(MadtError::TooShort);
    }
    if !(table[0] == 0x41 && table[1] == 0x50 && table[2] == 0x49 && table[3] == 0x43) {
        return Err(MadtError::BadSignature);
    }
    let declared = read_u32(table, 4);
    if (declared as usize) < MADT_ENTRIES_OFFSET || declared as usize > len {
        return Err(MadtError::TooShort);
    }
    let end = declared as usize;
    let address = read_u32(table, 36);
    let ghost s = table@;
    let mut entries: Vec<MadtEntry> = Vec::new();
    let mut o: usize = MADT_ENTRIES_OFFSET;
    while o < end
        invariant
            s == table@,
            madt_spec(s) == match entries_from(s, MADT_ENTRIES_OFFSET as nat, end as nat) {
                Ok(es) => Ok((address, es)),
                Err(e) => Err(e),
            },
            end <= s.len() <= usize::MAX,
            end == le_u32(s, 4),
            MADT_ENTRIES_OFFSET <= o,
            entries_from(s, MADT_ENTRIES_OFFSET as nat, end as nat) == match entries_from(
                s,
                o as nat,
                end as nat,
            ) {
                Ok(rest) => Ok(entries@ + rest),
                Err(e) => Err(e),
            },
        decreases end - o,
    {
        if end - o < 2 {
            return Err(MadtError::BadEntry);
        }
        let kind = table[o];
        let elen = table[o + 1] as usize;
        let min: usize = if kind == 0 {
            8
        } else if kind == 1 {
            12
        } else if kind == 2 {
            10
        } else {
            2
        };
        if elen < min || elen > end - o {
            return Err(MadtError::BadEntry);
        }
        let e = if kind == 0 {
            MadtEntry::LocalApic {
                processor_id: table[o + 2],
                apic_id: table[o + 3],
                flags: read_u32(table, o + 4),
            }
        } else if kind == 1 {
            MadtEntry::IoApic {
                id: table[o + 2],
                address: read_u32(table, o + 4),
                gsi_base: read_u32(table, o + 8),
            }
        } else if kind == 2 {
            MadtEntry::InterruptSourceOverride {
                bus: table[o + 2],
                source_irq: table[o + 3],
                gsi: read_u32(table, o + 4),
                flags: read_u16(table, o + 8),
            }
        } else {
            MadtEntry::Other { kind, length: table[o + 1] }
        };
        assert(e == entry_at(s, o as int));
        let ghost before = entries@;
        entries.push(e);
        proof {
            match entries_from(s, (o + elen) as nat, end as nat) {
                Ok(rest) => {
                    assert(before + (seq![e] + rest) =~= entries@ + rest);
                },
                Err(_) => {},
            }
        }
        o = o + elen;
    }
    proof {
        assert(entries@ + Seq::<MadtEntry>::empty() =~= entries@);
    }
    Ok(ApicTopology { local_apic_address: address, entries })
}

/// The first IO controller among `es`: its register address and first
/// global system interrupt.
pub open spec fn first_io_apic_spec(es: Seq<MadtEntry>) -> Option<(u32, u32)>
    decreases es.len(),
{
    if es.len() == 0 {
        None
    } else {
        match es[0] {
            MadtEntry::IoApic { address, gsi_base, .. } => Some((address, gsi_base)),
            _ => first_io_apic_spec(es.subrange(1, es.len() as int)),
        }
    }
}

/// Finds the first IO controller of the topology.
pub fn first_io_apic(entries: &Vec<MadtEntry>) -> (r: Option<(u32, u32)>)
    ensures
        r == first_io_apic_spec(entries@),
{
    let mut i: usize = 0;
    assert(entries@.subrange(0, entries@.len() as int) =~= entries@);
    while i < entries.len()
        invariant
            i <= entries@.len(),
            first_io_apic_spec(entries@) == first_io_apic_spec(
                entries@.subrange(i as int, entries@.len() as int),
            ),
        decreases entries@.len() - i,
    {
        let ghost rest = entries@.subrange(i as int, entries@.len() as int);
        assert(rest.subrange(1, rest.len() as int) =~= entries@.subrange(
            i + 1,
            entries@.len() as int,
        ));
        match entries[i] {
            MadtEntry::IoApic { address, gsi_base, .. } => {
                return Some((address, gsi_base));
            },
            _ => {},
        }
        i = i + 1;
    }
    None
}

/// The redirection writes for entry `e`, on the IO controller whose first
/// global system interrupt is `gsi_base`: an override of a line that this
/// controller serves is routed to vector `vector_base + source_irq`; other
/// entries need none.
pub open spec fn route_spec(gsi_base: u32, vector_base: u8, e: MadtEntry) -> Seq<RegisterWrite> {
    match e {
        MadtEntry::InterruptSourceOverride { source_irq, gsi, flags, .. } => {
            if gsi_base <= gsi && gsi - gsi_base < MAX_REDIRECTION_ENTRIES && vector_base
                + source_irq <= 255 {
                redirection_writes_spec(
                    (gsi - gsi_base) as u32,
                    (vector_base + source_irq) as u8,
                    flags,
                )
            } else {
                Seq::empty()
            }
        },
        _ => Seq::empty(),
    }
}

/// The redirection writes for all of `es`, in entry order.
pub open spec fn routing_spec(gsi_base: u32, vector_base: u8, es: Seq<MadtEntry>) -> Seq<
    RegisterWrite,
>
    decreases es.len(),
{
    if es.len() == 0 {
        Seq::empty()
    } else {
        routing_spec(gsi_base, vector_base, es.drop_last()) + route_spec(
            gsi_base,
            vector_base,
            es.last(),
        )
    }
}

/// Programs one redirection entry for each interrupt-source override that
/// the IO controller with first line `gsi_base` serves.
pub fn routing_writes(entries: &Vec<MadtEntry>, gsi_base: u32, vector_base: u8) -> (r: Vec<
    RegisterWrite,
>)
    ensures
        r@ == routing_spec(gsi_base, vector_base, entries@),
{
    let mut out: Vec<RegisterWrite> = Vec::new();
    let mut i: usize = 0;
    while i < entries.len()
        invariant
            i <= entries@.len(),
            out@ == routing_spec(gsi_base, vector_base, entries@.subrange(0, i as int)),
        decreases entries@.len() - i,
    {
        let ghost pre = entries@.subrange(0, i + 1);
        assert(pre.drop_last() =~= entries@.subrange(0, i as int));
        match entries[i] {
            MadtEntry::InterruptSourceOverride { source_irq, gsi, flags, .. } => {
                if gsi_base <= gsi && gsi - gsi_base < MAX_REDIRECTION_ENTRIES && (vector_base as u32)
                    + (source_irq as u32) <= 255 {
                    let w = redirection_writes(gsi - gsi_base, vector_base + source_irq, flags);
                    let ghost before = out@;
                    let mut k: usize = 0;
                    while k < w.len()
                        invariant
                            k <= w@.len(),
                            out@ == before + w@.subrange(0, k as int),
                        decreases w@.len() - k,
                    {
                        out.push(w[k]);
                        assert(w@.subrange(0, k + 1) =~= w@.subrange(0, k as int).push(w@[k as int]));
                        k = k + 1;
                    }
                    assert(w@.subrange(0, w@.len() as int) =~= w@);
                } else {
                    assert(out@ + Seq::<RegisterWrite>::empty() =~= out@);
                }
            },
            _ => {
                assert(out@ + Seq::<RegisterWrite>::empty() =~= out@);
            },
        }
        i = i + 1;
    }
    assert(entries@.subrange(0, entries@.len() as int) =~= entries@);
    out
}

} // verus!
