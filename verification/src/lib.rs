//! An emulator core for an 8-bit AVR microcontroller (ATmega32-compatible).
//!
//! The crate decodes raw machine words into instructions, executes them
//! against a memory bus with memory-mapped I/O (digital ports, external pin
//! interrupts, a 16-bit timer in CTC mode, and a 10-bit ADC), and offers an
//! optional basic-block execution cache beside the one-instruction-at-a-time
//! interpreter.  Every observable effect of the core is specified by a
//! functional model (`spec` functions over ghost state) and the executable
//! code is proved to follow it.

pub mod util;
pub mod data;
pub mod decoder;
pub mod io;
pub mod memory;
pub mod interrupts;
pub mod flags;
pub mod cpu;
pub mod laws;
