//! Bootstrap and hardware-interrupt core of a small bare-metal boot chain.
//!
//! The loader side parses the kernel's executable image and plans where each
//! loadable segment is mapped (`elf`, `loader`). The kernel side has the bump
//! heap (`allocator`), the privilege tables with the double fault's stack
//! (`privilege`), the interrupt vector table, bring-up order and handler
//! decisions (`interrupts`), and the advanced interrupt controllers with their
//! topology table (`apic`, `topology`). Diagnostics, fonts, drawing and the
//! watermark image are in `text`, `font`, `render` and `ppm`.
//!
//! Hardware access stays with the caller: functions here return the register
//! and port writes to perform, or draw into a pixel buffer.

pub mod bytes;
pub mod elf;
pub mod loader;

pub mod allocator;
pub mod privilege;
pub mod interrupts;
pub mod apic;
pub mod topology;

pub mod text;
pub mod font;
pub mod render;
pub mod ppm;
