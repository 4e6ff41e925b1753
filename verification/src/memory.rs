//! The memory bus: data RAM, program ROM, the decoded-instruction cache, the
//! UDR output stream, four digital ports, and the ADC.
//!
//! `MemView` is the mathematical state of the bus and `spec_bus_read` /
//! `spec_bus_write` define every observable effect of a byte access:
//! a write stores the byte, then a write to UDR appends it to the output
//! stream, a write to ADCSRA may run a conversion, and a write to a DDR or
//! PORT address drives the external wires; a read of a PIN address returns
//! the wire levels of the pins configured as inputs.

use vstd::prelude::*;

use crate::data::{Fault, Instruction};
use crate::decoder::{decode, spec_decode};
use crate::io::{spec_digital, IO, HIGH, LOW};
use crate::util::{bit, spec_bit};

verus! {

/// Bytes of data memory: registers, I/O window, and SRAM together.
pub const SRAM_SIZE: usize = 2144;

/// Bytes of program memory.
pub const PROGRAM_SIZE: usize = 32768;

/// Words of program memory: one decoded-instruction slot each.
pub const MAX_INSTRUCTIONS: usize = 16384;

/// Bus offset of the first I/O register.
pub const IO_REGISTER_OFFSET: u16 = 0x20;

/// Number of I/O registers.
pub const NUM_IO_REGISTER: u16 = 0x40;

/// I/O-register index of SREG (bus address 0x5F).
pub const FLAGS_REG: u16 = 0x3f;

/// I/O-register index of SPL (bus address 0x5D; SPH is one above).
pub const SP_REG: u16 = 0x3d;

/// Bus address of SREG.
pub const FLAGS_ADDR: u16 = 0x5F;

/// Bus address of SPL.
pub const SP_ADDR: u16 = 0x5D;

/// Bus address of UDR: bytes written here go to the host's output.
pub const UDR_ADDR: u16 = 0x2C;

/// Bus addresses of the ADC registers.
pub const ADCL_ADDR: u16 = 0x24;

/// Bus address of ADCH.
pub const ADCH_ADDR: u16 = 0x25;

/// Bus address of ADCSRA: writing the enable and start bits here triggers a
/// conversion.
pub const ADCSRA_ADDR: u16 = 0x26;

/// Bus address of ADMUX.
pub const ADMUX_ADDR: u16 = 0x27;

/// First bus address of the port window; port i occupies the three
/// addresses starting at `0x30 + (3 - i) * 3` as PIN, DDR, PORT.
pub const PORT_BASE: u16 = 0x30;

/// Bus address of PIND, whose pins 2 and 3 drive INT0 and INT1.
pub const PIND_ADDR: u16 = 0x30;

/// The mathematical state of the bus.
#[verifier::ext_equal]
pub struct MemView {
    /// The 2144 bytes of data memory.
    pub data: Seq<u8>,
    /// The 32768 bytes of program memory.
    pub prog: Seq<u8>,
    /// The decoded-instruction cache, one entry per program word.
    pub code: Seq<Instruction>,
    /// Every byte written to UDR so far, oldest first.
    pub out: Seq<u8>,
    /// Whether external wiring is attached; without it ports and the ADC
    /// are inert.
    pub has_io: bool,
    /// The supply voltage in millivolts.
    pub vcc: u16,
    /// The 32 port-pin voltages in millivolts.
    pub pins: Seq<u16>,
}

/// Whether `addr` is the PIN register of some port.
pub open spec fn is_pin_addr(addr: u16) -> bool {
    0x30 <= addr < 0x3C && addr % 3 == 0
}

/// Whether `addr` is the DDR or PORT register of some port.
pub open spec fn is_port_ctl_addr(addr: u16) -> bool {
    0x30 <= addr < 0x3C && addr % 3 != 0
}

/// The port index (0-3) owning bus address `addr` in the port window.
pub open spec fn port_of_addr(addr: u16) -> int {
    3 - (addr - 0x30) / 3
}

/// Bus address of port `p`'s DDR register.
pub open spec fn ddr_addr(p: int) -> int {
    0x30 + (3 - p) * 3 + 1
}

/// Bus address of port `p`'s PORT register.
pub open spec fn port_reg_addr(p: int) -> int {
    0x30 + (3 - p) * 3 + 2
}

/// The digital level read from pin `i` of port `p`: 0 for output pins,
/// else the thresholded wire voltage.
pub open spec fn spec_pin_bit(m: MemView, p: int, i: int) -> u8 {
    if spec_bit(m.data[ddr_addr(p)], i as u8) == 1 {
        0
    } else {
        spec_digital(m.pins[p * 8 + i])
    }
}

/// The byte a read of port `p`'s PIN register returns.
pub open spec fn spec_pin_byte(m: MemView, p: int) -> u8 {
    (spec_pin_bit(m, p, 0) + spec_pin_bit(m, p, 1) * 2 + spec_pin_bit(m, p, 2) * 4 + spec_pin_bit(
        m,
        p,
        3,
    ) * 8 + spec_pin_bit(m, p, 4) * 16 + spec_pin_bit(m, p, 5) * 32 + spec_pin_bit(m, p, 6) * 64
        + spec_pin_bit(m, p, 7) * 128) as u8
}

/// What a bus read of `addr` returns: the computed pin byte for a PIN
/// address with wiring attached, else the stored byte.
pub open spec fn spec_bus_read(m: MemView, addr: u16) -> u8 {
    if m.has_io && is_pin_addr(addr) {
        spec_pin_byte(m, port_of_addr(addr))
    } else {
        m.data[addr as int]
    }
}

/// The store every bus write begins with: the byte lands in data memory,
/// and a write to UDR also appends to the output stream.
pub open spec fn spec_store(m: MemView, addr: u16, val: u8) -> MemView {
    let m1 = MemView { data: m.data.update(addr as int, val), ..m };
    if addr == UDR_ADDR {
        MemView { out: m1.out.push(val), ..m1 }
    } else {
        m1
    }
}

/// Whether writing `val` to `addr` starts an ADC conversion: wiring
/// attached, the ADCSRA address, and both the enable and start bits set.
pub open spec fn adc_triggered(m: MemView, addr: u16, val: u8) -> bool {
    m.has_io && addr == ADCSRA_ADDR && spec_bit(val, 7) == 1 && spec_bit(val, 6) == 1
}

/// The one conversion profile the core accepts: reference AVCC
/// (REFS1=0, REFS0=1), right-adjusted (ADLAR=0), MUX3=MUX4=0, and
/// auto-trigger, interrupt flag, and interrupt enable all clear.
pub open spec fn adc_profile_ok(admux: u8, val: u8) -> bool {
    spec_bit(admux, 7) == 0 && spec_bit(admux, 6) == 1 && spec_bit(admux, 5) == 0 && spec_bit(
        admux,
        4,
    ) == 0 && spec_bit(admux, 3) == 0 && spec_bit(val, 5) == 0 && spec_bit(val, 4) == 0
        && spec_bit(val, 3) == 0
}

/// The 10-bit conversion result for pin `pin` of port A:
/// `pin_mv * 1024 / vcc_mv`, kept from reaching 1024 exactly.
pub open spec fn spec_adc_value(m: MemView, pin: int) -> int {
    let conv = m.pins[pin] * 1024 / m.vcc as int;
    if conv == 1024 {
        1023
    } else {
        conv
    }
}

/// The pin voltages after a write of `portv` with direction byte `ddr`
/// reaches port `p`: every output pin is driven to a rail, input pins keep
/// their level.
pub open spec fn drive_pins(pins: Seq<u16>, p: int, ddr: u8, portv: u8) -> Seq<u16> {
    Seq::new(
        32,
        |j: int|
            if p * 8 <= j < p * 8 + 8 && spec_bit(ddr, (j - p * 8) as u8) == 1 {
                if spec_bit(portv, (j - p * 8) as u8) == 1 {
                    HIGH
                } else {
                    LOW
                }
            } else {
                pins[j]
            },
    )
}

/// The full effect of a bus write: the state afterwards and the fault, if
/// the write triggered an ADC conversion outside the accepted profile or
/// with no supply voltage.
pub open spec fn spec_bus_write(m: MemView, addr: u16, val: u8) -> (MemView, Option<Fault>) {
    let m1 = spec_store(m, addr, val);
    if adc_triggered(m, addr, val) {
        let admux = m1.data[ADMUX_ADDR as int];
        if !adc_profile_ok(admux, val) || m.vcc == 0 {
            (m1, Some(Fault::AdcConfig(admux, val)))
        } else {
            let conv = spec_adc_value(m, (admux % 8) as int);
            let d = m1.data.update(ADCL_ADDR as int, (conv % 256) as u8).update(
                ADCH_ADDR as int,
                ((conv / 256) % 4) as u8,
            ).update(ADCSRA_ADDR as int, val & 0xbf);
            (MemView { data: d, ..m1 }, None)
        }
    } else if m.has_io && is_port_ctl_addr(addr) {
        let p = port_of_addr(addr);
        let ddr = m1.data[ddr_addr(p)];
        let portv = m1.data[port_reg_addr(p)];
        (MemView { pins: drive_pins(m.pins, p, ddr, portv), ..m1 }, None)
    } else {
        (m1, None)
    }
}

/// The stack pointer: the little-endian 16-bit value at SPL/SPH.
pub open spec fn spec_sp(m: MemView) -> u16 {
    (m.data[SP_ADDR as int + 1] * 256 + m.data[SP_ADDR as int]) as u16
}

/// The 16-bit value at I/O-register pair `index`, `index + 1`, as the bus
/// reads it.
pub open spec fn spec_io_reg16(m: MemView, index: u16) -> u16 {
    (spec_bus_read(m, (IO_REGISTER_OFFSET + index + 1) as u16) * 256 + spec_bus_read(
        m,
        (IO_REGISTER_OFFSET + index) as u16,
    )) as u16
}

/// Both bus writes of a 16-bit store to I/O-register pair `index`: low
/// byte first; a fault in the first write stops before the second.
pub open spec fn spec_set_io_reg16(m: MemView, index: u16, val: u16) -> (MemView, Option<Fault>) {
    let lo = (val % 256) as u8;
    let hi = (val / 256) as u8;
    let r1 = spec_bus_write(m, (IO_REGISTER_OFFSET + index) as u16, lo);
    if r1.1 is Some {
        r1
    } else {
        spec_bus_write(r1.0, (IO_REGISTER_OFFSET + index + 1) as u16, hi)
    }
}

/// The effect of an 8-bit push: write at SP, then decrement SP (wrapping).
pub open spec fn spec_push(m: MemView, val: u8) -> (MemView, Option<Fault>) {
    let sp = spec_sp(m);
    let r1 = spec_bus_write(m, sp, val);
    if r1.1 is Some {
        r1
    } else {
        spec_set_io_reg16(r1.0, SP_REG, sub_wrap16(sp, 1))
    }
}

/// The effect of an 8-bit pop: increment SP (wrapping), read there.
/// Returns the state afterwards and the byte read.
pub open spec fn spec_pop(m: MemView) -> (MemView, u8) {
    let sp = add_wrap16(spec_sp(m), 1);
    let val = spec_bus_read(m, sp);
    (spec_set_io_reg16(m, SP_REG, sp).0, val)
}

/// The effect of a 16-bit push: low byte at SP, high byte below it.
pub open spec fn spec_push16(m: MemView, val: u16) -> (MemView, Option<Fault>) {
    let r1 = spec_push(m, (val % 256) as u8);
    if r1.1 is Some {
        r1
    } else {
        spec_push(r1.0, (val / 256) as u8)
    }
}

/// The effect of a 16-bit pop: the high byte comes off first.
pub open spec fn spec_pop16(m: MemView) -> (MemView, u16) {
    let r1 = spec_pop(m);
    let r2 = spec_pop(r1.0);
    (r2.0, (r1.1 * 256 + r2.1) as u16)
}

/// 16-bit wrapping subtraction.
pub open spec fn sub_wrap16(a: u16, b: u16) -> u16 {
    if a - b < 0 {
        (a - b + 0x10000) as u16
    } else {
        (a - b) as u16
    }
}

/// 16-bit wrapping addition.
pub open spec fn add_wrap16(a: u16, b: u16) -> u16 {
    if a + b > u16::MAX {
        (a + b - 0x10000) as u16
    } else {
        (a + b) as u16
    }
}

/// The program image padded with zero bytes to the full ROM size.
pub open spec fn spec_prog_of(image: Seq<u8>) -> Seq<u8> {
    Seq::new(
        PROGRAM_SIZE as nat,
        |i: int|
            if i < image.len() {
                image[i]
            } else {
                0u8
            },
    )
}

/// The decoded image padded with NOP to one slot per program word, so that
/// a runaway program counter meets NOPs rather than garbage.
pub open spec fn spec_code_of(image: Seq<u8>) -> Seq<Instruction> {
    let d = spec_decode(image);
    Seq::new(
        MAX_INSTRUCTIONS as nat,
        |i: int|
            if i < d.len() {
                d[i]
            } else {
                Instruction::NOP
            },
    )
}

/// The bus: data memory, program memory, the decoded-instruction cache,
/// the UDR output stream, and the external wiring.
pub struct Memory {
    /// The decoded-instruction cache, one entry per program word.
    pub code: Vec<Instruction>,
    /// Program memory, byte-addressed (LPM reads it).
    pub program: Vec<u8>,
    /// Data memory: registers at 0x00, I/O window at 0x20, SRAM above.
    pub data: Vec<u8>,
    /// The external wiring.
    pub io: IO,
    /// Whether the wiring is attached; when not, ports and ADC are inert.
    pub has_io: bool,
    /// Every byte written to UDR, oldest first, until drained.
    pub out: Vec<u8>,
}

impl View for Memory {
    type V = MemView;

    open spec fn view(&self) -> MemView {
        MemView {
            data: self.data@,
            prog: self.program@,
            code: self.code@,
            out: self.out@,
            has_io: self.has_io,
            vcc: self.io.vcc.level,
            pins: self.io.p@.map_values(|w: Wire| w.level),
        }
    }
}

} // verus!

use crate::io::Wire;

verus! {

impl Memory {
    /// The sizes every operation relies on.
    pub open spec fn wf(self) -> bool {
        self.data@.len() == SRAM_SIZE && self.program@.len() == PROGRAM_SIZE && self.code@.len()
            == MAX_INSTRUCTIONS && self.io.wf()
    }

    /// Build the bus from a program image: the image is decoded once into
    /// the instruction cache, padded with NOPs; program memory is the image
    /// padded with zeros; data memory starts cleared.
    pub fn new(image: &[u8], io: Option<IO>) -> (r: Memory)
        requires
            image@.len() <= PROGRAM_SIZE,
            match io {
                Some(i) => i.wf(),
                None => true,
            },
        ensures
            r.wf(),
            r@.code == spec_code_of(image@),
            r@.prog == spec_prog_of(image@),
            r@.data == Seq::new(SRAM_SIZE as nat, |i: int| 0u8),
            r@.out == Seq::<u8>::empty(),
            r@.has_io == io is Some,
            match io {
                Some(i) => r@.vcc == i.vcc.level && r@.pins == i.p@.map_values(
                    |w: Wire| w.level,
                ),
                None => true,
            },
    {
        let decoded = decode(image);
        let mut code = decoded.items;
        proof {
            crate::decoder::lemma_decode_len(image@);
        }
        code.resize(MAX_INSTRUCTIONS, Instruction::NOP);
        proof {
            let d = spec_decode(image@);
            assert forall|i: int| d.len() <= i < MAX_INSTRUCTIONS as int implies code@[i]
                == Instruction::NOP by {
                assert(cloned(Instruction::NOP, code@[i]));
            }
            assert forall|i: int| 0 <= i < d.len() implies code@[i] == d[i] by {
                if d.len() < MAX_INSTRUCTIONS as int {
                    assert(code@.subrange(0, d.len() as int)[i] == code@[i]);
                }
            }
        }
        let mut program: Vec<u8> = Vec::new();
        program.extend_from_slice(image);
        proof {
            assert(program@ =~= image@);
        }
        program.resize(PROGRAM_SIZE, 0u8);
        proof {
            assert forall|i: int| image@.len() <= i < PROGRAM_SIZE as int implies program@[i]
                == 0u8 by {
                assert(cloned(0u8, program@[i]));
            }
            assert forall|i: int| 0 <= i < image@.len() implies program@[i] == image@[i] by {
                if image@.len() < PROGRAM_SIZE as int {
                    assert(program@.subrange(0, image@.len() as int)[i] == program@[i]);
                }
            }
        }
        let mut data: Vec<u8> = Vec::new();
        data.resize(SRAM_SIZE, 0u8);
        proof {
            assert forall|i: int| 0 <= i < SRAM_SIZE as int implies data@[i] == 0u8 by {
                assert(cloned(0u8, data@[i]));
            }
        }
        let (io_inner, has_io) = match io {
            Some(i) => (i, true),
            None => (IO::new(), false),
        };
        let r = Memory { code, program, data, io: io_inner, has_io, out: Vec::new() };
        proof {
            assert(r@.code =~= spec_code_of(image@));
            assert(r@.prog =~= spec_prog_of(image@));
            assert(r@.data =~= Seq::new(SRAM_SIZE as nat, |i: int| 0u8));
        }
        r
    }

    /// The decoded instruction cached for program word `ip`.
    pub fn get_instruction(&self, ip: usize) -> (r: Instruction)
        requires
            self.wf(),
            ip < MAX_INSTRUCTIONS,
        ensures
            r == self@.code[ip as int],
    {
        self.code[ip]
    }

    /// General-purpose register `index`.
    pub fn reg(&self, index: u8) -> (r: u8)
        requires
            self.wf(),
            index < 32,
        ensures
            r == self@.data[index as int],
    {
        self.data[index as usize]
    }

    /// Store `val` into general-purpose register `index`.  Register stores
    /// bypass the bus dispatch: ports and peripherals only watch the I/O
    /// window.
    pub fn set_reg(&mut self, index: u8, val: u8)
        requires
            old(self).wf(),
            index < 32,
        ensures
            final(self).wf(),
            final(self)@ == (MemView { data: old(self)@.data.update(index as int, val), ..old(
                self,
            )@ }),
    {
        self.data[index as usize] = val;
    }

    /// I/O register `index` (0-63), read through the bus.
    pub fn io_reg(&self, index: u8) -> (r: u8)
        requires
            self.wf(),
            index < 64,
        ensures
            r == spec_bus_read(self@, (IO_REGISTER_OFFSET + index) as u16),
    {
        self.data(IO_REGISTER_OFFSET + index as u16)
    }

    /// Write I/O register `index` (0-63) through the bus.
    pub fn set_io_reg(&mut self, index: u8, val: u8) -> (r: Result<(), Fault>)
        requires
            old(self).wf(),
            index < 64,
        ensures
            final(self).wf(),
            final(self)@ == spec_bus_write(old(self)@, (IO_REGISTER_OFFSET + index) as u16,
            val).0,
            r == fault_result(spec_bus_write(old(self)@, (IO_REGISTER_OFFSET + index) as u16,
            val).1),
    {
        self.set_data(IO_REGISTER_OFFSET + index as u16, val)
    }

    /// Program-memory byte at `index`.
    pub fn read_program(&self, index: u16) -> (r: u8)
        requires
            self.wf(),
            index < PROGRAM_SIZE as u16,
        ensures
            r == self@.prog[index as int],
    {
        self.program[index as usize]
    }

    /// The status register.  SREG is not watched by any peripheral, so the
    /// raw byte is the bus value.
    pub fn flags(&self) -> (r: u8)
        requires
            self.wf(),
        ensures
            r == self@.data[FLAGS_ADDR as int],
    {
        self.data[FLAGS_ADDR as usize]
    }

    /// Store the status register directly.
    pub fn set_flags(&mut self, flags: u8)
        requires
            old(self).wf(),
        ensures
            final(self).wf(),
            final(self)@ == (MemView {
                data: old(self)@.data.update(FLAGS_ADDR as int, flags),
                ..old(self)@
            }),
    {
        self.data[FLAGS_ADDR as usize] = flags;
    }

    /// The byte a read of port `p`'s PIN register returns: 0 for output
    /// pins, the thresholded wire level for input pins.
    #[verifier::rlimit(100)]
    #[verifier::spinoff_prover]
    fn pin_byte(&self, p: u16) -> (r: u8)
        requires
            self.wf(),
            p < 4,
        ensures
            r == spec_pin_byte(self@, p as int),
    {
        let ddr = self.data[(0x30 + (3 - p as usize) * 3 + 1)];
        assert(ddr == self@.data[ddr_addr(p as int)]);
        let base = p as usize * 8;
        let b0 = if bit(ddr, 0) == 1 { 0 } else { self.io.p[base].as_bin() };
        let b1 = if bit(ddr, 1) == 1 { 0 } else { self.io.p[base + 1].as_bin() };
        let b2 = if bit(ddr, 2) == 1 { 0 } else { self.io.p[base + 2].as_bin() };
        let b3 = if bit(ddr, 3) == 1 { 0 } else { self.io.p[base + 3].as_bin() };
        let b4 = if bit(ddr, 4) == 1 { 0 } else { self.io.p[base + 4].as_bin() };
        let b5 = if bit(ddr, 5) == 1 { 0 } else { self.io.p[base + 5].as_bin() };
        let b6 = if bit(ddr, 6) == 1 { 0 } else { self.io.p[base + 6].as_bin() };
        let b7 = if bit(ddr, 7) == 1 { 0 } else { self.io.p[base + 7].as_bin() };
        proof {
            assert(b0 == spec_pin_bit(self@, p as int, 0));
            assert(b1 == spec_pin_bit(self@, p as int, 1));
            assert(b2 == spec_pin_bit(self@, p as int, 2));
            assert(b3 == spec_pin_bit(self@, p as int, 3));
            assert(b4 == spec_pin_bit(self@, p as int, 4));
            assert(b5 == spec_pin_bit(self@, p as int, 5));
            assert(b6 == spec_pin_bit(self@, p as int, 6));
            assert(b7 == spec_pin_bit(self@, p as int, 7));
        }
        b0 + b1 * 2 + b2 * 4 + b3 * 8 + b4 * 16 + b5 * 32 + b6 * 64 + b7 * 128
    }

    /// Read a byte through the bus: a PIN address with wiring attached
    /// reads the pins, everything else reads the stored byte.
    pub fn data(&self, index: u16) -> (r: u8)
        requires
            self.wf(),
            index < SRAM_SIZE as u16,
        ensures
            r == spec_bus_read(self@, index),
    {
        if self.has_io && index >= 0x30 && index < 0x3C && index % 3 == 0 {
            let p = 3 - (index - 0x30) / 3;
            self.pin_byte(p)
        } else {
            self.data[index as usize]
        }
    }

    /// Write a byte through the bus: store it, then let UDR, the ADC, or
    /// the addressed port observe it.  Only an ADC trigger can fault.
    pub fn set_data(&mut self, index: u16, val: u8) -> (r: Result<(), Fault>)
        requires
            old(self).wf(),
            index < SRAM_SIZE as u16,
        ensures
            final(self).wf(),
            final(self)@ == spec_bus_write(old(self)@, index, val).0,
            r == fault_result(spec_bus_write(old(self)@, index, val).1),
    {
        self.data[index as usize] = val;
        if index == UDR_ADDR {
            self.out.push(val);
        }
        if self.has_io && index == ADCSRA_ADDR && bit(val, 7) == 1 && bit(val, 6) == 1 {
            let admux = self.data[ADMUX_ADDR as usize];
            let vcc = self.io.vcc.mv();
            if !(bit(admux, 7) == 0 && bit(admux, 6) == 1 && bit(admux, 5) == 0 && bit(admux, 4)
                == 0 && bit(admux, 3) == 0 && bit(val, 5) == 0 && bit(val, 4) == 0 && bit(val, 3)
                == 0) || vcc == 0 {
                return Err(Fault::AdcConfig(admux, val));
            }
            let pin = (admux % 8) as usize;
            let mut conv: u32 = (self.io.p[pin].mv() as u32) * 1024 / (vcc as u32);
            if conv == 1024 {
                conv = 1023;
            }
            self.data[ADCL_ADDR as usize] = (conv % 256) as u8;
            self.data[ADCH_ADDR as usize] = ((conv / 256) % 4) as u8;
            self.data[ADCSRA_ADDR as usize] = val & 0xbf;
            return Ok(());
        }
        if self.has_io && index >= 0x30 && index < 0x3C && index % 3 != 0 {
            let p = (3 - (index - 0x30) / 3) as usize;
            let ddr = self.data[0x30 + (3 - p) * 3 + 1];
            let portv = self.data[0x30 + (3 - p) * 3 + 2];
            let base = p * 8;
            let ghost oldp = self.io.p@;
            let ghost pre = *self;
            let mut i: usize = 0;
            while i < 8
                invariant
                    i <= 8,
                    p < 4,
                    base == p * 8,
                    self.io.p@.len() == 32,
                    oldp.len() == 32,
                    self.data == pre.data,
                    self.program == pre.program,
                    self.code == pre.code,
                    self.out == pre.out,
                    self.has_io == pre.has_io,
                    self.io.vcc == pre.io.vcc,
                    oldp == pre.io.p@,
                    forall|j: int|
                        0 <= j < 32 ==> self.io.p@[j].level == (if base <= j < base + i
                            && spec_bit(ddr, (j - base) as u8) == 1 {
                            if spec_bit(portv, (j - base) as u8) == 1 {
                                HIGH
                            } else {
                                LOW
                            }
                        } else {
                            oldp[j].level
                        }),
                decreases 8 - i,
            {
                if bit(ddr, i as u8) == 1 {
                    let level = if bit(portv, i as u8) == 1 { HIGH } else { LOW };
                    self.io.p[base + i] = Wire { level };
                }
                i = i + 1;
            }
            proof {
                assert forall|j: int| 0 <= j < 32 implies self@.pins[j] == drive_pins(
                    old(self)@.pins,
                    p as int,
                    ddr,
                    portv,
                )[j] by {
                    assert(self@.pins[j] == self.io.p@[j].level);
                    assert(old(self)@.pins[j] == oldp[j].level);
                }
                assert(self@.pins =~= drive_pins(old(self)@.pins, p as int, ddr, portv));
                assert(self@ =~= spec_bus_write(old(self)@, index, val).0);
            }
            return Ok(());
        }
        Ok(())
    }

    /// The 16-bit value at I/O-register pair `index`, `index + 1`.
    pub fn io_reg16(&self, index: u8) -> (r: u16)
        requires
            self.wf(),
            index < 63,
        ensures
            r == spec_io_reg16(self@, index as u16),
    {
        let lo = self.io_reg(index);
        let hi = self.io_reg(index + 1);
        (hi as u16) * 256 + (lo as u16)
    }

    /// Write the 16-bit value `val` to I/O-register pair `index`,
    /// `index + 1`, low byte first.
    pub fn set_io_reg16(&mut self, index: u8, val: u16) -> (r: Result<(), Fault>)
        requires
            old(self).wf(),
            index < 63,
        ensures
            final(self).wf(),
            final(self)@ == spec_set_io_reg16(old(self)@, index as u16, val).0,
            r == fault_result(spec_set_io_reg16(old(self)@, index as u16, val).1),
    {
        let r1 = self.set_io_reg(index, (val % 256) as u8);
        if r1.is_err() {
            return r1;
        }
        self.set_io_reg(index + 1, (val / 256) as u8)
    }

    /// The stack pointer.
    pub fn sp(&self) -> (r: u16)
        requires
            self.wf(),
        ensures
            r == spec_sp(self@),
    {
        let lo = self.data[SP_ADDR as usize];
        let hi = self.data[SP_ADDR as usize + 1];
        (hi as u16) * 256 + (lo as u16)
    }

    /// Store the stack pointer.  SPL/SPH are plain bytes, so this never
    /// faults.
    pub fn set_sp(&mut self, val: u16)
        requires
            old(self).wf(),
        ensures
            final(self).wf(),
            final(self)@ == spec_set_io_reg16(old(self)@, SP_REG, val).0,
            spec_set_io_reg16(old(self)@, SP_REG, val).1 is None,
    {
        let r = self.set_io_reg16(SP_REG as u8, val);
        proof {
            assert(r is Ok);
        }
    }

    /// Push a byte: write it at SP, then decrement SP with wraparound.
    /// Faults only if SP points at ADCSRA and the byte triggers a bad
    /// conversion.
    pub fn push(&mut self, val: u8) -> (r: Result<(), Fault>)
        requires
            old(self).wf(),
            spec_sp(old(self)@) < SRAM_SIZE as u16,
        ensures
            final(self).wf(),
            final(self)@ == spec_push(old(self)@, val).0,
            r == fault_result(spec_push(old(self)@, val).1),
    {
        let sp = self.sp();
        let r1 = self.set_data(sp, val);
        if r1.is_err() {
            return r1;
        }
        self.set_sp(sp.wrapping_sub(1));
        Ok(())
    }

    /// Pop a byte: increment SP with wraparound, read there.
    pub fn pop(&mut self) -> (r: u8)
        requires
            old(self).wf(),
            add_wrap16(spec_sp(old(self)@), 1) < SRAM_SIZE as u16,
        ensures
            final(self).wf(),
            final(self)@ == spec_pop(old(self)@).0,
            r == spec_pop(old(self)@).1,
    {
        let sp = self.sp().wrapping_add(1);
        let ret = self.data(sp);
        self.set_sp(sp);
        ret
    }

    /// Push a 16-bit value, low byte at SP, high byte below it.
    pub fn push16(&mut self, val: u16) -> (r: Result<(), Fault>)
        requires
            old(self).wf(),
            spec_sp(old(self)@) < SRAM_SIZE as u16,
            sub_wrap16(spec_sp(old(self)@), 1) < SRAM_SIZE as u16,
        ensures
            final(self).wf(),
            final(self)@ == spec_push16(old(self)@, val).0,
            r == fault_result(spec_push16(old(self)@, val).1),
    {
        let r1 = self.push((val % 256) as u8);
        if r1.is_err() {
            return r1;
        }
        proof {
            lemma_push_sp(old(self)@, (val % 256) as u8);
        }
        self.push((val / 256) as u8)
    }

    /// Pop a 16-bit value; the high byte comes off first.
    pub fn pop16(&mut self) -> (r: u16)
        requires
            old(self).wf(),
            add_wrap16(spec_sp(old(self)@), 1) < SRAM_SIZE as u16,
            add_wrap16(spec_sp(old(self)@), 2) < SRAM_SIZE as u16,
        ensures
            final(self).wf(),
            final(self)@ == spec_pop16(old(self)@).0,
            r == spec_pop16(old(self)@).1,
    {
        let top = self.pop();
        proof {
            lemma_pop_sp(old(self)@);
        }
        let bot = self.pop();
        (top as u16) * 256 + (bot as u16)
    }

    /// Hand over the bytes written to UDR so far and clear the stream.
    pub fn take_output(&mut self) -> (r: Vec<u8>)
        requires
            old(self).wf(),
        ensures
            final(self).wf(),
            r@ == old(self)@.out,
            final(self)@ == (MemView { out: Seq::<u8>::empty(), ..old(self)@ }),
    {
        let mut taken: Vec<u8> = Vec::new();
        core::mem::swap(&mut taken, &mut self.out);
        taken
    }

    /// Set the voltage of one external pin wire.
    pub fn set_pin_mv(&mut self, port: u8, pin: u8, mv: u16)
        requires
            old(self).wf(),
            port < 4,
            pin < 8,
        ensures
            final(self).wf(),
            final(self)@ == (MemView {
                pins: old(self)@.pins.update(port * 8 + pin, mv),
                ..old(self)@
            }),
    {
        let idx = port as usize * 8 + pin as usize;
        self.io.p[idx] = Wire { level: mv };
        proof {
            assert(self@.pins =~= old(self)@.pins.update(port as int * 8 + pin as int, mv));
            assert(self@ =~= MemView {
                pins: old(self)@.pins.update(port as int * 8 + pin as int, mv),
                ..old(self)@
            });
        }
    }

    /// The voltage of one external pin wire.
    pub fn pin_mv(&self, port: u8, pin: u8) -> (r: u16)
        requires
            self.wf(),
            port < 4,
            pin < 8,
        ensures
            r == self@.pins[port * 8 + pin],
    {
        self.io.p[port as usize * 8 + pin as usize].mv()
    }

    /// Set the supply voltage the ADC measures against.
    pub fn set_vcc(&mut self, mv: u16)
        requires
            old(self).wf(),
        ensures
            final(self).wf(),
            final(self)@ == (MemView { vcc: mv, ..old(self)@ }),
    {
        self.io.vcc.set(mv);
        proof {
            assert(self@ =~= MemView { vcc: mv, ..old(self)@ });
        }
    }
}

/// A fault option as the `Result` the executable functions return.
pub open spec fn fault_result(f: Option<Fault>) -> Result<(), Fault> {
    match f {
        Some(fault) => Err(fault),
        None => Ok(()),
    }
}

/// After a successful push, SP has moved down one with wraparound and the
/// bus sizes are unchanged.
pub proof fn lemma_push_sp(m: MemView, val: u8)
    requires
        m.data.len() == SRAM_SIZE,
        spec_sp(m) < SRAM_SIZE as u16,
        spec_push(m, val).1 is None,
    ensures
        spec_sp(spec_push(m, val).0) == sub_wrap16(spec_sp(m), 1),
        spec_push(m, val).0.data.len() == m.data.len(),
{
    let sp = spec_sp(m);
    let m1 = spec_bus_write(m, sp, val).0;
    lemma_set_sp16(m1, sub_wrap16(sp, 1));
}

/// After a pop, SP has moved up one with wraparound.
pub proof fn lemma_pop_sp(m: MemView)
    requires
        m.data.len() == SRAM_SIZE,
    ensures
        spec_sp(spec_pop(m).0) == add_wrap16(spec_sp(m), 1),
        spec_pop(m).0.data.len() == m.data.len(),
{
    lemma_set_sp16(m, add_wrap16(spec_sp(m), 1));
}

/// A 16-bit store to the SP pair never faults, leaves the data size alone,
/// and is read back exactly by `spec_sp`.
pub proof fn lemma_set_sp16(m: MemView, v: u16)
    requires
        m.data.len() == SRAM_SIZE,
    ensures
        spec_set_io_reg16(m, SP_REG, v).1 is None,
        spec_sp(spec_set_io_reg16(m, SP_REG, v).0) == v,
        spec_set_io_reg16(m, SP_REG, v).0.data.len() == m.data.len(),
{
    let lo = (v % 256) as u8;
    let hi = (v / 256) as u8;
    let m1 = spec_bus_write(m, SP_ADDR, lo).0;
    let m2 = spec_bus_write(m1, (SP_ADDR + 1) as u16, hi).0;
    assert(m2.data[SP_ADDR as int] == lo);
    assert(m2.data[SP_ADDR as int + 1] == hi);
    assert(hi * 256 + lo == v) by {
        vstd::arithmetic::div_mod::lemma_fundamental_div_mod(v as int, 256);
    }
}

} // verus!
