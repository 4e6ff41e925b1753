//! Whole-machine scenarios: peripherals, interrupts, the ADC, the output
//! stream, faults, and agreement between the interpreter and the block
//! runner.

use avr_core::cpu::Cpu;
use avr_core::data::{Fault, Instruction};
use avr_core::decoder::decode;
use avr_core::io::{Wire, IO};
use avr_core::memory::Memory;

fn words_to_bytes(words: &[u16]) -> Vec<u8> {
    let mut bytes = Vec::new();
    for w in words {
        bytes.push((*w & 0xff) as u8);
        bytes.push((*w >> 8) as u8);
    }
    bytes
}

fn machine(words: &[u16], io: Option<IO>, halt_on_nop: bool) -> Cpu {
    Cpu::new(Memory::new(&words_to_bytes(words), io), halt_on_nop)
}

fn op2(base: u16, d: u8, r: u8) -> u16 {
    base | (((r as u16) & 0x10) << 5) | ((d as u16) << 4) | ((r as u16) & 0xf)
}
fn add(d: u8, r: u8) -> u16 {
    op2(0x0C00, d, r)
}
fn adc(d: u8, r: u8) -> u16 {
    op2(0x1C00, d, r)
}
fn sub(d: u8, r: u8) -> u16 {
    op2(0x1800, d, r)
}
fn eor(d: u8, r: u8) -> u16 {
    op2(0x2400, d, r)
}
fn ldi(d: u8, k: u8) -> u16 {
    0xE000 | (((k as u16) & 0xf0) << 4) | ((((d as u16) - 16) & 0xf) << 4) | ((k as u16) & 0xf)
}
fn subi(d: u8, k: u8) -> u16 {
    0x5000 | (((k as u16) & 0xf0) << 4) | ((((d as u16) - 16) & 0xf) << 4) | ((k as u16) & 0xf)
}
fn out(a: u8, r: u8) -> u16 {
    0xB800 | (((a as u16) & 0x30) << 5) | ((r as u16) << 4) | ((a as u16) & 0xf)
}
fn inn(d: u8, a: u8) -> u16 {
    0xB000 | (((a as u16) & 0x30) << 5) | ((d as u16) << 4) | ((a as u16) & 0xf)
}
fn brbc(s: u8, k: i16) -> u16 {
    0xF400 | ((((k - 1) as u16) & 0x7f) << 3) | (s as u16)
}
fn rjmp(k: i16) -> u16 {
    0xC000 | (((k - 1) as u16) & 0xfff)
}
fn push(r: u8) -> u16 {
    0x920F | ((r as u16) << 4)
}
fn pop(d: u8) -> u16 {
    0x900F | ((d as u16) << 4)
}
fn st_x(r: u8) -> u16 {
    0x920C | ((r as u16) << 4)
}
fn lpm_z(d: u8) -> u16 {
    0x9004 | ((d as u16) << 4)
}
fn swap_op(d: u8) -> u16 {
    0x9402 | ((d as u16) << 4)
}
fn sleep_op() -> u16 {
    0x9588
}
fn nop() -> u16 {
    0
}
fn call(k: u32) -> [u16; 2] {
    let hi = (k >> 16) as u16;
    [0x940E | ((hi >> 1) << 4) | (hi & 1), (k & 0xffff) as u16]
}
fn ret() -> u16 {
    0x9508
}

fn bit(v: u8, pos: u8) -> u8 {
    (v >> pos) & 1
}

/// The sign flag always reads back as N xor V after arithmetic.
#[test]
fn sign_flag_is_n_xor_v() {
    for (a, b) in [(10u8, 7u8), (128, 128), (255, 255), (127, 127), (0, 0), (200, 100)] {
        let mut cpu = machine(&[add(0, 1)], None, true);
        cpu.set_reg(0, a);
        cpu.set_reg(1, b);
        while cpu.step() {}
        let f = cpu.flags();
        assert_eq!(bit(f, 4), bit(f, 2) ^ bit(f, 3));
    }
}

/// The program counter stays inside program space while running, and a
/// transfer that would leave it stops the machine with a fault.
#[test]
fn pc_stays_in_range() {
    let mut cpu = machine(&[add(0, 1), rjmp(-5)], None, false);
    assert!(cpu.ip < 16384);
    cpu.step();
    assert!(cpu.ip < 16384);
    cpu.step();
    assert_eq!(cpu.fault(), Some(Fault::JumpTarget(1)));
    assert!(cpu.ip < 16384);
}

/// A two-word instruction consumes exactly two program-counter increments.
#[test]
fn two_word_pc_cost() {
    // sts 0x100, r0
    let mut cpu = machine(&[0x9200, 0x0100], None, false);
    assert_eq!(cpu.ip, 0);
    cpu.step();
    assert_eq!(cpu.ip, 2);
}

/// Each byte written to UDR reaches the output stream exactly once, in
/// order.
#[test]
fn udr_output_exactly_once() {
    let mut cpu = machine(
        &[ldi(16, 72), out(0x0c, 16), ldi(16, 105), out(0x0c, 16)],
        None,
        true,
    );
    while cpu.step() {}
    assert!(cpu.fault().is_none());
    let out_bytes = cpu.take_output();
    assert_eq!(out_bytes, vec![72u8, 105]);
    assert_eq!(cpu.take_output(), Vec::<u8>::new());
}

/// PUSH r; POP r leaves registers and SP unchanged.
#[test]
fn push_pop_leaves_state() {
    let mut cpu = machine(&[push(1), pop(1)], None, true);
    cpu.mem.set_sp(0x200);
    cpu.set_reg(1, 0xAB);
    while cpu.step() {}
    assert!(cpu.fault().is_none());
    assert_eq!(cpu.reg(1), 0xAB);
    assert_eq!(cpu.mem.sp(), 0x200);
}

/// CALL L; L: RET comes back to the instruction after the CALL with SP
/// restored.
#[test]
fn call_ret_restores_sp() {
    let c = call(3);
    let mut cpu = machine(&[c[0], c[1], nop(), ret()], None, true);
    cpu.mem.set_sp(0x200);
    cpu.step();
    assert_eq!(cpu.ip, 3);
    assert_eq!(cpu.mem.sp(), 0x200 - 2);
    cpu.step();
    assert_eq!(cpu.ip, 2);
    assert_eq!(cpu.mem.sp(), 0x200);
}

/// IN r, A; OUT A, r leaves the I/O register unchanged when A has no side
/// effects.
#[test]
fn in_out_leaves_io_register() {
    let mut cpu = machine(&[inn(3, 0x10), out(0x10, 3)], None, true);
    let w = cpu.mem.set_data(0x30, 0x5A);
    assert!(w.is_ok());
    while cpu.step() {}
    assert!(cpu.fault().is_none());
    assert_eq!(cpu.mem.data(0x30), 0x5A);
    assert_eq!(cpu.reg(3), 0x5A);
}

/// The interpreter and the block runner agree bit-exactly on pure ALU
/// work, including flags, and a block re-entered after its first
/// compilation behaves the same.
#[test]
fn block_runner_matches_interpreter() {
    let program = [
        ldi(16, 3),
        add(0, 1),
        adc(2, 3),
        sub(4, 5),
        eor(6, 7),
        subi(16, 1),
        brbc(1, -4),
        nop(),
    ];
    let init: [(u8, u8); 8] = [
        (0, 200),
        (1, 100),
        (2, 255),
        (3, 255),
        (4, 5),
        (5, 9),
        (6, 0xF0),
        (7, 0x0F),
    ];
    let mut interp = machine(&program, None, true);
    let mut blocks = machine(&program, None, true);
    blocks.enable_block_cache();
    for (r, v) in init {
        interp.set_reg(r, v);
        blocks.set_reg(r, v);
    }
    while interp.step() {}
    while blocks.step() {}
    assert!(interp.fault().is_none());
    assert!(blocks.fault().is_none());
    for r in 0..32u8 {
        assert_eq!(interp.reg(r), blocks.reg(r), "register {}", r);
    }
    assert_eq!(interp.flags(), blocks.flags());
    assert_eq!(interp.ip, blocks.ip);
}

/// External interrupt INT0: enabled, level-low sense, I set, PD2 low: the
/// next step pushes the program counter, clears I, and jumps to vector 1.
#[test]
fn int0_level_low_delivery() {
    // A marker at vector 1 shows that the step jumped there (and then
    // executed it, as a step does).
    let mut cpu = machine(&[nop(), ldi(16, 0xAA), nop(), nop()], Some(IO::new()), false);
    cpu.mem.set_vcc(5000);
    cpu.mem.set_sp(0x200);
    assert!(cpu.mem.set_data(0x5B, 0x40).is_ok()); // GICR: INT0 enable
    assert!(cpu.mem.set_data(0x55, 0x00).is_ok()); // MCUCR: level-low sense
    cpu.mem.set_flags(0x80); // I
    cpu.mem.set_pin_mv(3, 2, 0); // drive PD2 low
    cpu.step();
    assert!(cpu.fault().is_none());
    assert_eq!(cpu.reg(16), 0xAA); // the vector's instruction ran
    assert_eq!(cpu.ip, 2);
    assert_eq!(bit(cpu.flags(), 7), 0);
    assert_eq!(cpu.mem.sp(), 0x200 - 2);
    // The pushed return address is the program counter before delivery.
    assert_eq!(cpu.mem.data(0x200), 0);
    assert_eq!(cpu.mem.data(0x1FF), 0);
}

/// Timer 1 in CTC mode with prescaler 1 and OCR1A = 3: TCNT1 counts 1, 2,
/// 3, and the fourth step is the compare match, raising OCF1A and clearing
/// TCNT1 (a period of OCR1A + 1 steps); with OCIE1A and I set, the next
/// step delivers vector 7.
#[test]
fn timer1_ctc_compare_match() {
    let mut cpu = machine(
        &[nop(), nop(), nop(), nop(), nop(), nop(), nop(), ldi(17, 0x55), nop()],
        None,
        false,
    );
    assert!(cpu.mem.set_data(0x4E, 0x01).is_ok()); // TCCR1B: clock select 1
    assert!(cpu.mem.set_io_reg16(0x2a, 3).is_ok()); // OCR1A
    assert!(cpu.mem.set_data(0x59, 0x10).is_ok()); // TIMSK: OCIE1A
    cpu.step();
    cpu.step();
    assert_eq!(cpu.mem.io_reg16(0x2c), 2);
    cpu.step();
    // TCNT1 shows the compare value; the flag is not up yet.
    assert_eq!(cpu.mem.io_reg16(0x2c), 3);
    assert_eq!(bit(cpu.mem.data(0x58), 4), 0);
    cpu.step();
    // The fourth step is the compare match: TCNT1 cleared, OCF1A raised.
    assert_eq!(cpu.mem.io_reg16(0x2c), 0);
    assert_eq!(bit(cpu.mem.data(0x58), 4), 1);
    // Enable interrupts: the next step claims the flag, jumps to
    // vector 7, and executes the marker there.
    cpu.mem.set_sp(0x200);
    cpu.mem.set_flags(0x80);
    cpu.step();
    assert!(cpu.fault().is_none());
    assert_eq!(cpu.reg(17), 0x55); // the vector's instruction ran
    assert_eq!(cpu.ip, 8);
    assert_eq!(bit(cpu.mem.data(0x58), 4), 0);
}

/// ADC conversion: VCC 5000 mV, pin at 2500 mV, reference AVCC,
/// right-adjusted: the result is 512, split over ADCL/ADCH, and the
/// start bit clears.
#[test]
fn adc_half_rail_conversion() {
    let mut cpu = machine(&[nop()], Some(IO::new()), true);
    cpu.mem.set_vcc(5000);
    cpu.mem.set_pin_mv(0, 1, 2500);
    assert!(cpu.mem.set_data(0x27, 0x41).is_ok()); // ADMUX: REFS0, MUX = 1
    assert!(cpu.mem.set_data(0x26, 0xC0).is_ok()); // ADEN | ADSC
    assert_eq!(cpu.mem.data(0x24), 0x00);
    assert_eq!(cpu.mem.data(0x25), 0x02);
    assert_eq!(cpu.mem.data(0x26), 0x80);
}

/// An ADC trigger outside the accepted profile names the configuration in
/// its fault.
#[test]
fn adc_rejects_unsupported_profile() {
    let mut cpu = machine(&[ldi(16, 0xC0), out(0x06, 16)], Some(IO::new()), true);
    cpu.mem.set_vcc(5000);
    // ADMUX left zero: REFS0 clear, not the accepted reference.
    while cpu.step() {}
    assert_eq!(cpu.fault(), Some(Fault::AdcConfig(0, 0xC0)));
}

/// An unknown opcode faults with its program counter and raw bits.
#[test]
fn unknown_opcode_faults() {
    let mut cpu = machine(&[0x0001], None, true);
    cpu.step();
    assert_eq!(cpu.fault(), Some(Fault::UnknownInstruction(0, 1)));
}

/// An encoding the core leaves unimplemented faults when executed.
#[test]
fn unimplemented_encoding_faults() {
    let mut cpu = machine(&[swap_op(0)], None, true);
    cpu.step();
    assert!(matches!(cpu.fault(), Some(Fault::BadOperand(0, _))));
}

/// A store beyond the bus faults with the offending address.
#[test]
fn bus_address_faults() {
    let mut cpu = machine(&[ldi(26, 0xFF), ldi(27, 0xFF), st_x(0)], None, true);
    while cpu.step() {}
    assert_eq!(cpu.fault(), Some(Fault::BusAddress(2, 0xFFFF)));
}

/// A program-memory read beyond the image faults.
#[test]
fn program_address_faults() {
    let mut cpu = machine(&[ldi(31, 0x80), lpm_z(0)], None, true);
    while cpu.step() {}
    assert_eq!(cpu.fault(), Some(Fault::ProgramAddress(1, 0x8000)));
}

/// An unimplemented external-interrupt sense mode faults.
#[test]
fn sense_mode_faults() {
    let mut cpu = machine(&[nop(), nop()], Some(IO::new()), false);
    assert!(cpu.mem.set_data(0x5B, 0x40).is_ok()); // GICR: INT0 enable
    assert!(cpu.mem.set_data(0x55, 0x02).is_ok()); // MCUCR: falling edge
    cpu.step();
    assert_eq!(cpu.fault(), Some(Fault::SenseMode(0, 2)));
}

/// An unsupported timer clock select faults.
#[test]
fn clock_select_faults() {
    let mut cpu = machine(&[nop(), nop()], None, false);
    assert!(cpu.mem.set_data(0x4E, 0x06).is_ok());
    cpu.step();
    assert_eq!(cpu.fault(), Some(Fault::ClockSelect(6)));
}

/// SLEEP stops execution until an interrupt wakes the machine.
#[test]
fn sleep_until_interrupt() {
    let mut cpu = machine(&[sleep_op(), add(0, 1)], Some(IO::new()), false);
    cpu.mem.set_sp(0x200);
    cpu.set_reg(0, 1);
    cpu.set_reg(1, 2);
    cpu.step();
    assert!(cpu.sleeping);
    for _ in 0..3 {
        assert!(cpu.step());
    }
    assert_eq!(cpu.reg(0), 1); // nothing executed while asleep
    // Wake through INT0, level-low: delivery jumps to vector 1 and the
    // same step executes the instruction there.
    assert!(cpu.mem.set_data(0x5B, 0x40).is_ok());
    cpu.mem.set_flags(0x80);
    cpu.step();
    assert!(!cpu.sleeping);
    assert_eq!(cpu.ip, 2);
    assert_eq!(cpu.reg(0), 3); // the add at the vector ran once
}

/// A truncated image decodes to `IncompleteOp` sentinels instead of
/// stopping the decoder.
#[test]
fn truncated_image_decodes_to_sentinels() {
    // A single stray byte.
    let mut it = decode(&[0x0C]);
    assert_eq!(it.next(), Some(Instruction::IncompleteOp(0x0C)));
    assert_eq!(it.next(), None);
    // A two-word CALL missing its whole second word.
    let c = call(5);
    let mut it2 = decode(&[(c[0] & 0xff) as u8, (c[0] >> 8) as u8]);
    assert_eq!(it2.next(), Some(Instruction::IncompleteOp(c[0] as u32)));
    assert_eq!(it2.next(), None);
    // A two-word CALL with one byte of its second word.
    let mut it3 = decode(&[(c[0] & 0xff) as u8, (c[0] >> 8) as u8, 0x05]);
    assert_eq!(
        it3.next(),
        Some(Instruction::IncompleteOp(((c[0] as u32) << 8) | 0x05))
    );
    assert_eq!(it3.next(), None);
}

/// The instruction cache pads past the image with NOPs, so a runaway
/// program counter meets NOPs.
#[test]
fn image_padding_is_nops() {
    let mem = Memory::new(&[0x0C, 0x01], None);
    assert_eq!(mem.get_instruction(1), Instruction::NOP);
    assert_eq!(mem.get_instruction(16383), Instruction::NOP);
}

/// A wire thresholds at mid-rail.
#[test]
fn wire_digital_threshold() {
    let mut w = Wire::new();
    assert_eq!(w.mv(), 0);
    assert_eq!(w.as_bin(), 0);
    w.set(2500);
    assert_eq!(w.as_bin(), 0);
    w.set(2501);
    assert_eq!(w.as_bin(), 1);
    w.set(5000);
    assert_eq!(w.as_bin(), 1);
}

/// Port direction decides what a PIN read sees: output pins read zero,
/// input pins read the wire level.
#[test]
fn port_reads_follow_direction() {
    let mut cpu = machine(&[nop()], Some(IO::new()), true);
    // Port B: PIN 0x36, DDR 0x37, PORT 0x38.
    cpu.mem.set_pin_mv(1, 0, 5000);
    cpu.mem.set_pin_mv(1, 7, 5000);
    assert_eq!(cpu.mem.data(0x36), 0b10000001);
    // Make pin 7 an output: it reads zero afterwards.
    assert!(cpu.mem.set_data(0x37, 0x80).is_ok());
    assert_eq!(cpu.mem.data(0x36), 0b00000001);
}

/// A PORT write drives exactly the output pins to the rails.
#[test]
fn port_writes_drive_wires() {
    let mut cpu = machine(&[nop()], Some(IO::new()), true);
    // Port B: make pins 0 and 1 outputs; set pin 2's wire high first.
    cpu.mem.set_pin_mv(1, 2, 4000);
    assert!(cpu.mem.set_data(0x37, 0b11).is_ok());
    assert!(cpu.mem.set_data(0x38, 0b01).is_ok());
    assert_eq!(cpu.mem.pin_mv(1, 0), 5000);
    assert_eq!(cpu.mem.pin_mv(1, 1), 0);
    assert_eq!(cpu.mem.pin_mv(1, 2), 4000); // input pin not driven
}
