//! The CPU: program counter, instruction semantics, interrupt dispatch, the
//! fetch-execute step loop, and an optional basic-block execution cache.
//!
//! `spec_exec_instr` is the one canonical definition of what every
//! instruction does; the interpreter executes single instructions against
//! it, and the block runner replays cached straight-line blocks whose
//! instructions go through the same routine, so both execution paths have
//! the same observable effects.  Anything the silicon would treat
//! as a programmer error (an unknown or unimplemented encoding, an operand
//! out of range, a bus or jump target outside the address space, an
//! unsupported peripheral mode) stops execution with a `Fault` naming the
//! program counter.

use vstd::prelude::*;

use crate::data::{Fault, Instruction, LDMode, LDType, LPMType, SetClear};
use crate::flags::{
    add_c, add_h, add_v, apply_flags, spec_add_c, spec_add_h, spec_add_v, spec_set_flags,
    spec_sub_c, spec_sub_h, spec_sub_v, spec_zero, spec_zero16, sub_c, sub_h, sub_v, zero_bit,
    zero_bit16, FLAG_C, FLAG_I, FLAG_T, FLAG_Z,
};
use crate::interrupts::{
    spec_ext_int_step, spec_ext_pending, spec_timer_pending, spec_timer_step, PortInterrupts,
    TimerInterrupts,
};
use crate::io::IO;
use crate::memory::{
    add_wrap16, spec_bus_read, spec_bus_write, spec_pop, spec_pop16, spec_push, spec_push16,
    spec_sp, sub_wrap16, MemView, Memory, FLAGS_ADDR, IO_REGISTER_OFFSET, MAX_INSTRUCTIONS,
    PROGRAM_SIZE, SRAM_SIZE,
};
use crate::util::{bit, bit16, bitneg, bitneg16, spec_bit, spec_bit16, spec_bitneg,
    spec_bitneg16};

verus! {

/// The mathematical state of the whole machine: the bus plus the CPU's own
/// registers and mode bits.
#[verifier::ext_equal]
pub struct CpuView {
    /// The bus state.
    pub mem: MemView,
    /// The program counter, a word index into the instruction cache.
    pub ip: int,
    /// Whether the first executed NOP halts the machine.
    pub halt_on_nop: bool,
    /// Whether the machine has halted for good.
    pub should_halt: bool,
    /// Whether the machine sleeps until an interrupt.
    pub sleeping: bool,
    /// Last latched level of PD2 (INT0 edge detection).
    pub prev0: u8,
    /// Last latched level of PD3 (INT1 edge detection).
    pub prev1: u8,
    /// CPU steps since the last timer tick.
    pub tsteps: u32,
    /// The diagnostic that stopped execution, if any.
    pub fault: Option<Fault>,
}

/// General-purpose register `r` in state `s`.
pub open spec fn regv(s: CpuView, r: u8) -> u8 {
    s.mem.data[r as int]
}

/// The status register in state `s`.
pub open spec fn flagsv(s: CpuView) -> u8 {
    s.mem.data[FLAGS_ADDR as int]
}

/// The 16-bit little-endian register pair at `r`, `r + 1`.
pub open spec fn wordv(s: CpuView, r: u8) -> u16 {
    (s.mem.data[r as int + 1] * 256 + s.mem.data[r as int]) as u16
}

/// `s` with register `r` set to `v`.
pub open spec fn upd_reg(s: CpuView, r: u8, v: u8) -> CpuView {
    CpuView { mem: MemView { data: s.mem.data.update(r as int, v), ..s.mem }, ..s }
}

/// `s` with the register pair at `r` set to `v`, low byte first.
pub open spec fn upd_word_reg(s: CpuView, r: u8, v: u16) -> CpuView {
    upd_reg(upd_reg(s, r, (v % 256) as u8), (r + 1) as u8, (v / 256) as u8)
}

/// `s` with the status register set to `f`.
pub open spec fn upd_flags(s: CpuView, f: u8) -> CpuView {
    CpuView { mem: MemView { data: s.mem.data.update(FLAGS_ADDR as int, f), ..s.mem }, ..s }
}

/// `s` after a masked flag write through the S-recomputing rule.
pub open spec fn flg(
    s: CpuView,
    i: Option<u8>,
    t: Option<u8>,
    h: Option<u8>,
    v: Option<u8>,
    n: Option<u8>,
    z: Option<u8>,
    c: Option<u8>,
) -> CpuView {
    upd_flags(s, spec_set_flags(flagsv(s), i, t, h, v, n, z, c))
}

/// `s` stopped with fault `f`.
pub open spec fn fault_at(s: CpuView, f: Fault) -> CpuView {
    CpuView { fault: Some(f), ..s }
}

/// The program counter as the 16-bit value faults carry.
pub open spec fn ipw(s: CpuView) -> u16 {
    s.ip as u16
}

/// `s` with the program counter moved to `t`, or stopped with a jump-target
/// fault if `t` lies outside program space.
pub open spec fn with_ip(s: CpuView, t: int) -> CpuView {
    if 0 <= t < MAX_INSTRUCTIONS as int {
        CpuView { ip: t, ..s }
    } else {
        fault_at(s, Fault::JumpTarget(ipw(s)))
    }
}

/// `s` after a bus operation: the new memory, and the bus fault if one
/// arose.
pub open spec fn apply_bus(s: CpuView, r: (MemView, Option<Fault>)) -> CpuView {
    CpuView {
        mem: r.0,
        fault: if r.1 is Some {
            r.1
        } else {
            s.fault
        },
        ..s
    }
}

/// Whether two stack bytes can be pushed: SP and SP-1 (wrapping) are on
/// the bus.
pub open spec fn stack2_ok(m: MemView) -> bool {
    spec_sp(m) < SRAM_SIZE as u16 && sub_wrap16(spec_sp(m), 1) < SRAM_SIZE as u16
}

/// A call: push the return address, then jump.  The stack is checked
/// first; the target only after the push went through.
pub open spec fn spec_call_like(s: CpuView, retip: u16, target: int) -> CpuView {
    if !stack2_ok(s.mem) {
        fault_at(s, Fault::BusAddress(ipw(s), spec_sp(s.mem)))
    } else {
        let s1 = apply_bus(s, spec_push16(s.mem, retip));
        if s1.fault is Some {
            s1
        } else {
            with_ip(s1, target)
        }
    }
}

/// A skip instruction: when the predicate holds, step over the next
/// instruction, and over its second word too if it has one; otherwise fall
/// through.
///
/// Only the slot two words ahead is inspected for a `SecondOpWord`.  A
/// program arranged so that the skip lands on the second word of some
/// other two-word instruction gets no further correction; executing that
/// slot then faults.
pub open spec fn do_skip(s: CpuView, cond: bool) -> CpuView {
    if !cond {
        with_ip(s, s.ip + 1)
    } else {
        let t = s.ip + 2;
        if t >= MAX_INSTRUCTIONS as int {
            fault_at(s, Fault::JumpTarget(ipw(s)))
        } else if s.mem.code[t] is SecondOpWord {
            with_ip(s, t + 1)
        } else {
            with_ip(s, t)
        }
    }
}

/// A load or store through a register pair, after operand validation:
/// pre-decrement first, then the access, then post-increment, each step
/// observing the one before it.
pub open spec fn spec_ld_st(
    s: CpuView,
    typ: LDType,
    reg: u8,
    addrreg: u8,
    mode: LDMode,
) -> CpuView {
    let s1 = if mode is PreDecrement {
        upd_word_reg(s, addrreg, sub_wrap16(wordv(s, addrreg), 1))
    } else {
        s
    };
    let disp: u16 = match mode {
        LDMode::Displacement(d) => d as u16,
        _ => 0,
    };
    let addr = add_wrap16(wordv(s1, addrreg), disp);
    if addr >= SRAM_SIZE as u16 {
        fault_at(s1, Fault::BusAddress(ipw(s), addr))
    } else {
        let s2 = match typ {
            LDType::LD => upd_reg(s1, reg, spec_bus_read(s1.mem, addr)),
            LDType::ST => apply_bus(s1, spec_bus_write(s1.mem, addr, regv(s1, reg))),
        };
        if s2.fault is Some {
            s2
        } else {
            let s3 = if mode is PostIncrement {
                upd_word_reg(s2, addrreg, add_wrap16(wordv(s2, addrreg), 1))
            } else {
                s2
            };
            with_ip(s3, s.ip + 1)
        }
    }
}

/// What one instruction does to the machine: the authoritative semantics
/// shared by the interpreter and the block runner.  Faults carry the
/// program counter of the instruction.
#[verifier::opaque]
pub open spec fn spec_exec_instr(s: CpuView, instr: Instruction) -> CpuView {
    match instr {
        Instruction::UnknownOp(b) => fault_at(s, Fault::UnknownInstruction(ipw(s), b as u32)),
        Instruction::IncompleteOp(b) => fault_at(s, Fault::UnknownInstruction(ipw(s), b)),
        Instruction::SecondOpWord => fault_at(s, Fault::BadOperand(ipw(s), instr)),
        Instruction::SWAP(_) => fault_at(s, Fault::BadOperand(ipw(s), instr)),
        Instruction::INC(_) => fault_at(s, Fault::BadOperand(ipw(s), instr)),
        Instruction::ADD(rd, rr) => {
            if rd >= 32 || rr >= 32 {
                fault_at(s, Fault::BadOperand(ipw(s), instr))
            } else {
                let a = regv(s, rd);
                let b = regv(s, rr);
                let res = vstd::wrapping::u8_specs::wrapping_add(a, b);
                let s1 = flg(
                    upd_reg(s, rd, res),
                    None,
                    None,
                    Some(spec_add_h(a, b, res)),
                    Some(spec_add_v(a, b, res)),
                    Some(spec_bit(res, 7)),
                    Some(spec_zero(res)),
                    Some(spec_add_c(a, b, res)),
                );
                with_ip(s1, s.ip + 1)
            }
        },
        Instruction::ADC(rd, rr) => {
            if rd >= 32 || rr >= 32 {
                fault_at(s, Fault::BadOperand(ipw(s), instr))
            } else {
                let a = regv(s, rd);
                let b = regv(s, rr);
                let res = vstd::wrapping::u8_specs::wrapping_add(
                    vstd::wrapping::u8_specs::wrapping_add(a, b),
                    spec_bit(flagsv(s), FLAG_C),
                );
                let s1 = flg(
                    upd_reg(s, rd, res),
                    None,
                    None,
                    Some(spec_add_h(a, b, res)),
                    Some(spec_add_v(a, b, res)),
                    Some(spec_bit(res, 7)),
                    Some(spec_zero(res)),
                    Some(spec_add_c(a, b, res)),
                );
                with_ip(s1, s.ip + 1)
            }
        },
        Instruction::ADIW(reg, k) => {
            if reg % 2 != 0 || reg >= 31 {
                fault_at(s, Fault::BadOperand(ipw(s), instr))
            } else {
                let w = wordv(s, reg);
                let res = add_wrap16(w, k as u16);
                let s1 = flg(
                    upd_word_reg(s, reg, res),
                    None,
                    None,
                    None,
                    Some(spec_bitneg16(w, 15) & spec_bit16(res, 15)),
                    Some(spec_bit16(res, 15)),
                    Some(spec_zero16(res)),
                    Some(spec_bit16(w, 15) & spec_bitneg16(res, 15)),
                );
                with_ip(s1, s.ip + 1)
            }
        },
        Instruction::SBIW(reg, k) => {
            if reg % 2 != 0 || reg >= 31 {
                fault_at(s, Fault::BadOperand(ipw(s), instr))
            } else {
                let w = wordv(s, reg);
                let res = sub_wrap16(w, k as u16);
                let s1 = flg(
                    upd_word_reg(s, reg, res),
                    None,
                    None,
                    None,
                    Some(spec_bit16(w, 15) & spec_bitneg16(res, 15)),
                    Some(spec_bit16(res, 15)),
                    Some(spec_zero16(res)),
                    Some(spec_bitneg16(w, 15) & spec_bit16(res, 15)),
                );
                with_ip(s1, s.ip + 1)
            }
        },
        Instruction::AND(rd, rr) => {
            if rd >= 32 || rr >= 32 {
                fault_at(s, Fault::BadOperand(ipw(s), instr))
            } else {
                let res = regv(s, rd) & regv(s, rr);
                let s1 = flg(
                    upd_reg(s, rd, res),
                    None,
                    None,
                    None,
                    Some(0),
                    Some(spec_bit(res, 7)),
                    Some(spec_zero(res)),
                    None,
                );
                with_ip(s1, s.ip + 1)
            }
        },
        Instruction::ANDI(rd, k) => {
            if rd >= 32 {
                fault_at(s, Fault::BadOperand(ipw(s), instr))
            } else {
                let res = regv(s, rd) & k;
                let s1 = flg(
                    upd_reg(s, rd, res),
                    None,
                    None,
                    None,
                    Some(0),
                    Some(spec_bit(res, 7)),
                    Some(spec_zero(res)),
                    None,
                );
                with_ip(s1, s.ip + 1)
            }
        },
        Instruction::OR(rd, rr) => {
            if rd >= 32 || rr >= 32 {
                fault_at(s, Fault::BadOperand(ipw(s), instr))
            } else {
                let res = regv(s, rd) | regv(s, rr);
                let s1 = flg(
                    upd_reg(s, rd, res),
                    None,
                    None,
                    None,
                    Some(0),
                    Some(spec_bit(res, 7)),
                    Some(spec_zero(res)),
                    None,
                );
                with_ip(s1, s.ip + 1)
            }
        },
        Instruction::ORI(rd, k) => {
            if rd >= 32 {
                fault_at(s, Fault::BadOperand(ipw(s), instr))
            } else {
                let res = regv(s, rd) | k;
                let s1 = flg(
                    upd_reg(s, rd, res),
                    None,
                    None,
                    None,
                    Some(0),
                    Some(spec_bit(res, 7)),
                    Some(spec_zero(res)),
                    None,
                );
                with_ip(s1, s.ip + 1)
            }
        },
        Instruction::EOR(rd, rr) => {
            if rd >= 32 || rr >= 32 {
                fault_at(s, Fault::BadOperand(ipw(s), instr))
            } else {
                let res = regv(s, rd) ^ regv(s, rr);
                let s1 = flg(
                    upd_reg(s, rd, res),
                    None,
                    None,
                    None,
                    Some(0),
                    Some(spec_bit(res, 7)),
                    Some(spec_zero(res)),
                    None,
                );
                with_ip(s1, s.ip + 1)
            }
        },
        Instruction::ASR(reg) => {
            if reg >= 32 {
                fault_at(s, Fault::BadOperand(ipw(s), instr))
            } else {
                let a = regv(s, reg);
                let res = ((a as i8) >> 1) as u8;
                let s1 = flg(
                    upd_reg(s, reg, res),
                    None,
                    None,
                    None,
                    Some(spec_bit(res, 7) ^ spec_bit(a, 0)),
                    Some(spec_bit(res, 7)),
                    Some(spec_zero(res)),
                    Some(spec_bit(a, 0)),
                );
                with_ip(s1, s.ip + 1)
            }
        },
        Instruction::LSR(reg) => {
            if reg >= 32 {
                fault_at(s, Fault::BadOperand(ipw(s), instr))
            } else {
                let a = regv(s, reg);
                let res = a >> 1;
                let s1 = flg(
                    upd_reg(s, reg, res),
                    None,
                    None,
                    None,
                    Some(spec_bit(a, 0)),
                    Some(0),
                    Some(spec_zero(res)),
                    Some(spec_bit(a, 0)),
                );
                with_ip(s1, s.ip + 1)
            }
        },
        Instruction::ROR(reg) => {
            if reg >= 32 {
                fault_at(s, Fault::BadOperand(ipw(s), instr))
            } else {
                let a = regv(s, reg);
                let res = (spec_bit(flagsv(s), FLAG_C) << 7) | (a >> 1);
                let s1 = flg(
                    upd_reg(s, reg, res),
                    None,
                    None,
                    None,
                    Some(spec_bit(res, 7) ^ spec_bit(a, 0)),
                    Some(spec_bit(res, 7)),
                    Some(spec_zero(res)),
                    Some(spec_bit(a, 0)),
                );
                with_ip(s1, s.ip + 1)
            }
        },
        Instruction::COM(reg) => {
            if reg >= 32 {
                fault_at(s, Fault::BadOperand(ipw(s), instr))
            } else {
                let res = !regv(s, reg);
                let s1 = flg(
                    upd_reg(s, reg, res),
                    None,
                    None,
                    None,
                    Some(0),
                    Some(spec_bit(res, 7)),
                    Some(spec_zero(res)),
                    Some(1),
                );
                with_ip(s1, s.ip + 1)
            }
        },
        Instruction::NEG(rd) => {
            if rd >= 32 {
                fault_at(s, Fault::BadOperand(ipw(s), instr))
            } else {
                let a = regv(s, rd);
                let res = vstd::wrapping::u8_specs::wrapping_sub(0, a);
                let s1 = flg(
                    upd_reg(s, rd, res),
                    None,
                    None,
                    Some(spec_bit(res, 3) | spec_bitneg(a, 3)),
                    Some(
                        if res == 0x80 {
                            1
                        } else {
                            0
                        },
                    ),
                    Some(spec_bit(res, 7)),
                    Some(spec_zero(res)),
                    Some(
                        if res != 0 {
                            1
                        } else {
                            0
                        },
                    ),
                );
                with_ip(s1, s.ip + 1)
            }
        },
        Instruction::DEC(reg) => {
            if reg >= 32 {
                fault_at(s, Fault::BadOperand(ipw(s), instr))
            } else {
                let res = vstd::wrapping::u8_specs::wrapping_sub(regv(s, reg), 1);
                let s1 = flg(
                    upd_reg(s, reg, res),
                    None,
                    None,
                    None,
                    Some(
                        if res == 0x7f {
                            1
                        } else {
                            0
                        },
                    ),
                    Some(spec_bit(res, 7)),
                    Some(spec_zero(res)),
                    None,
                );
                with_ip(s1, s.ip + 1)
            }
        },
        Instruction::SUB(rd, rr) => {
            if rd >= 32 || rr >= 32 {
                fault_at(s, Fault::BadOperand(ipw(s), instr))
            } else {
                let a = regv(s, rd);
                let b = regv(s, rr);
                let res = vstd::wrapping::u8_specs::wrapping_sub(a, b);
                let s1 = flg(
                    upd_reg(s, rd, res),
                    None,
                    None,
                    Some(spec_sub_h(a, b, res)),
                    Some(spec_sub_v(a, b, res)),
                    Some(spec_bit(res, 7)),
                    Some(spec_zero(res)),
                    Some(spec_sub_c(a, b, res)),
                );
                with_ip(s1, s.ip + 1)
            }
        },
        Instruction::SUBI(rd, k) => {
            if rd >= 32 {
                fault_at(s, Fault::BadOperand(ipw(s), instr))
            } else {
                let a = regv(s, rd);
                let res = vstd::wrapping::u8_specs::wrapping_sub(a, k);
                let s1 = flg(
                    upd_reg(s, rd, res),
                    None,
                    None,
                    Some(spec_sub_h(a, k, res)),
                    Some(spec_sub_v(a, k, res)),
                    Some(spec_bit(res, 7)),
                    Some(spec_zero(res)),
                    Some(spec_sub_c(a, k, res)),
                );
                with_ip(s1, s.ip + 1)
            }
        },
        Instruction::SBC(rd, rr) => {
            if rd >= 32 || rr >= 32 {
                fault_at(s, Fault::BadOperand(ipw(s), instr))
            } else {
                let a = regv(s, rd);
                let b = regv(s, rr);
                let res = vstd::wrapping::u8_specs::wrapping_sub(
                    vstd::wrapping::u8_specs::wrapping_sub(a, b),
                    spec_bit(flagsv(s), FLAG_C),
                );
                let s1 = flg(
                    upd_reg(s, rd, res),
                    None,
                    None,
                    Some(spec_sub_h(a, b, res)),
                    Some(spec_sub_v(a, b, res)),
                    Some(spec_bit(res, 7)),
                    Some(spec_zero(res) & spec_bit(flagsv(s), FLAG_Z)),
                    Some(spec_sub_c(a, b, res)),
                );
                with_ip(s1, s.ip + 1)
            }
        },
        Instruction::SBCI(rd, k) => {
            if rd >= 32 {
                fault_at(s, Fault::BadOperand(ipw(s), instr))
            } else {
                let a = regv(s, rd);
                let res = vstd::wrapping::u8_specs::wrapping_sub(
                    vstd::wrapping::u8_specs::wrapping_sub(a, k),
                    spec_bit(flagsv(s), FLAG_C),
                );
                let s1 = flg(
                    upd_reg(s, rd, res),
                    None,
                    None,
                    Some(spec_sub_h(a, k, res)),
                    Some(spec_sub_v(a, k, res)),
                    Some(spec_bit(res, 7)),
                    Some(spec_zero(res) & spec_bit(flagsv(s), FLAG_Z)),
                    Some(spec_sub_c(a, k, res)),
                );
                with_ip(s1, s.ip + 1)
            }
        },
        Instruction::CP(rd, rr) => {
            if rd >= 32 || rr >= 32 {
                fault_at(s, Fault::BadOperand(ipw(s), instr))
            } else {
                let a = regv(s, rd);
                let b = regv(s, rr);
                let res = vstd::wrapping::u8_specs::wrapping_sub(a, b);
                let s1 = flg(
                    s,
                    None,
                    None,
                    Some(spec_sub_h(a, b, res)),
                    Some(spec_sub_v(a, b, res)),
                    Some(spec_bit(res, 7)),
                    Some(spec_zero(res)),
                    Some(spec_sub_c(a, b, res)),
                );
                with_ip(s1, s.ip + 1)
            }
        },
        Instruction::CPC(rd, rr) => {
            if rd >= 32 || rr >= 32 {
                fault_at(s, Fault::BadOperand(ipw(s), instr))
            } else {
                let a = regv(s, rd);
                let b = regv(s, rr);
                let res = vstd::wrapping::u8_specs::wrapping_sub(
                    vstd::wrapping::u8_specs::wrapping_sub(a, b),
                    spec_bit(flagsv(s), FLAG_C),
                );
                let s1 = flg(
                    s,
                    None,
                    None,
                    Some(spec_sub_h(a, b, res)),
                    Some(spec_sub_v(a, b, res)),
                    Some(spec_bit(res, 7)),
                    Some(spec_zero(res) & spec_bit(flagsv(s), FLAG_Z)),
                    Some(spec_sub_c(a, b, res)),
                );
                with_ip(s1, s.ip + 1)
            }
        },
        Instruction::CPI(reg, k) => {
            if reg >= 32 {
                fault_at(s, Fault::BadOperand(ipw(s), instr))
            } else {
                let a = regv(s, reg);
                let res = vstd::wrapping::u8_specs::wrapping_sub(a, k);
                let s1 = flg(
                    s,
                    None,
                    None,
                    Some(spec_sub_h(a, k, res)),
                    Some(spec_sub_v(a, k, res)),
                    Some(spec_bit(res, 7)),
                    Some(spec_zero(res)),
                    Some(spec_sub_c(a, k, res)),
                );
                with_ip(s1, s.ip + 1)
            }
        },
        Instruction::MUL(rd, rr) => {
            if rd >= 32 || rr >= 32 {
                fault_at(s, Fault::BadOperand(ipw(s), instr))
            } else {
                let res = (regv(s, rd) * regv(s, rr)) as u16;
                let s1 = flg(
                    upd_word_reg(s, 0, res),
                    None,
                    None,
                    None,
                    None,
                    None,
                    Some(spec_zero16(res)),
                    Some(spec_bit16(res, 15)),
                );
                with_ip(s1, s.ip + 1)
            }
        },
        Instruction::MOV(rd, rr) => {
            if rd >= 32 || rr >= 32 {
                fault_at(s, Fault::BadOperand(ipw(s), instr))
            } else {
                with_ip(upd_reg(s, rd, regv(s, rr)), s.ip + 1)
            }
        },
        Instruction::MOVW(rd, rr) => {
            if rd % 2 != 0 || rd >= 31 || rr % 2 != 0 || rr >= 31 {
                fault_at(s, Fault::BadOperand(ipw(s), instr))
            } else {
                with_ip(upd_word_reg(s, rd, wordv(s, rr)), s.ip + 1)
            }
        },
        Instruction::LDI(reg, v) => {
            if reg >= 32 {
                fault_at(s, Fault::BadOperand(ipw(s), instr))
            } else {
                with_ip(upd_reg(s, reg, v), s.ip + 1)
            }
        },
        Instruction::BCLR(b) => {
            if b >= 8 {
                fault_at(s, Fault::BadOperand(ipw(s), instr))
            } else {
                with_ip(upd_flags(s, flagsv(s) & !(1u8 << b)), s.ip + 1)
            }
        },
        Instruction::BSET(b) => {
            if b >= 8 {
                fault_at(s, Fault::BadOperand(ipw(s), instr))
            } else {
                with_ip(upd_flags(s, flagsv(s) | (1u8 << b)), s.ip + 1)
            }
        },
        Instruction::BLD_ST(typ, reg, b) => {
            if reg >= 32 || b >= 8 {
                fault_at(s, Fault::BadOperand(ipw(s), instr))
            } else {
                match typ {
                    LDType::LD => {
                        let t = spec_bit(flagsv(s), FLAG_T);
                        let res = (regv(s, reg) & !(1u8 << b)) | (t << b);
                        with_ip(upd_reg(s, reg, res), s.ip + 1)
                    },
                    LDType::ST => {
                        let s1 = flg(
                            s,
                            None,
                            Some(spec_bit(regv(s, reg), b)),
                            None,
                            None,
                            None,
                            None,
                            None,
                        );
                        with_ip(s1, s.ip + 1)
                    },
                }
            }
        },
        Instruction::BRBC_S(sc, sreg, rel) => {
            if sreg >= 8 {
                fault_at(s, Fault::BadOperand(ipw(s), instr))
            } else {
                if spec_bit(flagsv(s), sreg) == sc.spec_as_u8() {
                    with_ip(s, s.ip + rel)
                } else {
                    with_ip(s, s.ip + 1)
                }
            }
        },
        Instruction::JMP(k) => with_ip(s, k as int),
        Instruction::RJMP(d) => with_ip(s, s.ip + d),
        Instruction::CALL(k) => spec_call_like(s, (s.ip + 2) as u16, k as int),
        Instruction::RCALL(d) => spec_call_like(s, (s.ip + 1) as u16, s.ip + d),
        Instruction::ICALL => {
            if !stack2_ok(s.mem) {
                fault_at(s, Fault::BusAddress(ipw(s), spec_sp(s.mem)))
            } else {
                let s1 = apply_bus(s, spec_push16(s.mem, (s.ip + 1) as u16));
                if s1.fault is Some {
                    s1
                } else {
                    with_ip(s1, wordv(s1, 30) as int)
                }
            }
        },
        Instruction::RET => {
            if add_wrap16(spec_sp(s.mem), 1) >= SRAM_SIZE as u16 || add_wrap16(
                spec_sp(s.mem),
                2,
            ) >= SRAM_SIZE as u16 {
                fault_at(s, Fault::BusAddress(ipw(s), spec_sp(s.mem)))
            } else {
                let r = spec_pop16(s.mem);
                with_ip(CpuView { mem: r.0, ..s }, r.1 as int)
            }
        },
        Instruction::RETI => {
            let s0 = flg(s, Some(1), None, None, None, None, None, None);
            if add_wrap16(spec_sp(s0.mem), 1) >= SRAM_SIZE as u16 || add_wrap16(
                spec_sp(s0.mem),
                2,
            ) >= SRAM_SIZE as u16 {
                fault_at(s0, Fault::BusAddress(ipw(s), spec_sp(s0.mem)))
            } else {
                let r = spec_pop16(s0.mem);
                with_ip(CpuView { mem: r.0, ..s0 }, r.1 as int)
            }
        },
        Instruction::CPSE(rd, rr) => {
            if rd >= 32 || rr >= 32 {
                fault_at(s, Fault::BadOperand(ipw(s), instr))
            } else {
                do_skip(s, regv(s, rd) == regv(s, rr))
            }
        },
        Instruction::SBR(sc, reg, b) => {
            if reg >= 32 || b >= 8 {
                fault_at(s, Fault::BadOperand(ipw(s), instr))
            } else {
                do_skip(s, spec_bit(regv(s, reg), b) == sc.spec_as_u8())
            }
        },
        Instruction::SBIC_S(sc, a, b) => {
            if a >= 64 || b >= 8 {
                fault_at(s, Fault::BadOperand(ipw(s), instr))
            } else {
                do_skip(
                    s,
                    spec_bit(spec_bus_read(s.mem, (IO_REGISTER_OFFSET + a) as u16), b)
                        == sc.spec_as_u8(),
                )
            }
        },
        Instruction::C_SBI(sc, ioreg, b) => {
            if ioreg >= 64 || b >= 8 {
                fault_at(s, Fault::BadOperand(ipw(s), instr))
            } else {
                let addr = (IO_REGISTER_OFFSET + ioreg) as u16;
                let v = spec_bus_read(s.mem, addr);
                let nv = (v & !(1u8 << b)) | (sc.spec_as_u8() << b);
                let s1 = apply_bus(s, spec_bus_write(s.mem, addr, nv));
                if s1.fault is Some {
                    s1
                } else {
                    with_ip(s1, s.ip + 1)
                }
            }
        },
        Instruction::IN(reg, idx) => {
            if reg >= 32 || idx >= 64 {
                fault_at(s, Fault::BadOperand(ipw(s), instr))
            } else {
                let v = spec_bus_read(s.mem, (IO_REGISTER_OFFSET + idx) as u16);
                with_ip(upd_reg(s, reg, v), s.ip + 1)
            }
        },
        Instruction::OUT(reg, idx) => {
            if reg >= 32 || idx >= 64 {
                fault_at(s, Fault::BadOperand(ipw(s), instr))
            } else {
                let s1 = apply_bus(
                    s,
                    spec_bus_write(s.mem, (IO_REGISTER_OFFSET + idx) as u16, regv(s, reg)),
                );
                if s1.fault is Some {
                    s1
                } else {
                    with_ip(s1, s.ip + 1)
                }
            }
        },
        Instruction::LD_ST(typ, reg, addrreg, mode) => {
            if reg >= 32 || addrreg % 2 != 0 || addrreg >= 31 {
                fault_at(s, Fault::BadOperand(ipw(s), instr))
            } else {
                spec_ld_st(s, typ, reg, addrreg, mode)
            }
        },
        Instruction::LD_STS(typ, reg, k) => {
            if reg >= 32 {
                fault_at(s, Fault::BadOperand(ipw(s), instr))
            } else if k >= SRAM_SIZE as u16 {
                fault_at(s, Fault::BusAddress(ipw(s), k))
            } else {
                match typ {
                    LDType::LD => with_ip(upd_reg(s, reg, spec_bus_read(s.mem, k)), s.ip + 2),
                    LDType::ST => {
                        let s1 = apply_bus(s, spec_bus_write(s.mem, k, regv(s, reg)));
                        if s1.fault is Some {
                            s1
                        } else {
                            with_ip(s1, s.ip + 2)
                        }
                    },
                }
            }
        },
        Instruction::LPM(reg, typ) => {
            if reg >= 32 {
                fault_at(s, Fault::BadOperand(ipw(s), instr))
            } else {
                let z = wordv(s, 30);
                if z >= PROGRAM_SIZE as u16 {
                    fault_at(s, Fault::ProgramAddress(ipw(s), z))
                } else {
                    let s1 = upd_reg(s, reg, s.mem.prog[z as int]);
                    let s2 = match typ {
                        LPMType::ZPostIncrement => upd_word_reg(
                            s1,
                            30,
                            add_wrap16(wordv(s1, 30), 1),
                        ),
                        LPMType::Z => s1,
                    };
                    with_ip(s2, s.ip + 1)
                }
            }
        },
        Instruction::PUSH(reg) => {
            if reg >= 32 {
                fault_at(s, Fault::BadOperand(ipw(s), instr))
            } else if spec_sp(s.mem) >= SRAM_SIZE as u16 {
                fault_at(s, Fault::BusAddress(ipw(s), spec_sp(s.mem)))
            } else {
                let s1 = apply_bus(s, spec_push(s.mem, regv(s, reg)));
                if s1.fault is Some {
                    s1
                } else {
                    with_ip(s1, s.ip + 1)
                }
            }
        },
        Instruction::POP(reg) => {
            if reg >= 32 {
                fault_at(s, Fault::BadOperand(ipw(s), instr))
            } else if add_wrap16(spec_sp(s.mem), 1) >= SRAM_SIZE as u16 {
                fault_at(s, Fault::BusAddress(ipw(s), spec_sp(s.mem)))
            } else {
                let r = spec_pop(s.mem);
                with_ip(upd_reg(CpuView { mem: r.0, ..s }, reg, r.1), s.ip + 1)
            }
        },
        Instruction::SLEEP => with_ip(CpuView { sleeping: true, ..s }, s.ip + 1),
        Instruction::NOP => {
            let s1 = if s.halt_on_nop {
                CpuView { should_halt: true, ..s }
            } else {
                s
            };
            with_ip(s1, s.ip + 1)
        },
    }
}

/// Whether an instruction ends a straight-line block: every control
/// transfer or skip, NOP (so halt-on-NOP stays observable), SLEEP, and the
/// encodings that fault when executed.
pub open spec fn spec_end_of_block(i: Instruction) -> bool {
    match i {
        Instruction::BRBC_S(_, _, _) => true,
        Instruction::CALL(_) => true,
        Instruction::CPSE(_, _) => true,
        Instruction::ICALL => true,
        Instruction::JMP(_) => true,
        Instruction::NOP => true,
        Instruction::RCALL(_) => true,
        Instruction::RET => true,
        Instruction::RETI => true,
        Instruction::RJMP(_) => true,
        Instruction::SBIC_S(_, _, _) => true,
        Instruction::SBR(_, _, _) => true,
        Instruction::SLEEP => true,
        Instruction::UnknownOp(_) => true,
        Instruction::IncompleteOp(_) => true,
        Instruction::SWAP(_) => true,
        Instruction::INC(_) => true,
        _ => false,
    }
}

/// The instructions of the straight-line block starting at word `pc`:
/// everything up to and including the first block-ending instruction,
/// with `SecondOpWord` slots left out.
pub open spec fn spec_block_at(code: Seq<Instruction>, pc: int) -> Seq<Instruction>
    decreases MAX_INSTRUCTIONS as int - pc,
{
    if !(0 <= pc < MAX_INSTRUCTIONS as int) || code.len() != MAX_INSTRUCTIONS as int {
        Seq::empty()
    } else {
        let i = code[pc];
        if i is SecondOpWord {
            spec_block_at(code, pc + 1)
        } else if spec_end_of_block(i) {
            seq![i]
        } else {
            seq![i] + spec_block_at(code, pc + 1)
        }
    }
}

/// Running a sequence of instructions in order; a fault stops the run.
pub open spec fn spec_exec_seq(s: CpuView, instrs: Seq<Instruction>) -> CpuView
    decreases instrs.len(),
{
    if instrs.len() == 0 || s.fault is Some {
        s
    } else {
        spec_exec_seq(spec_exec_instr(s, instrs[0]), instrs.skip(1))
    }
}

/// Whether the machine can take another step: not halted and not faulted.
pub open spec fn spec_running(s: CpuView) -> bool {
    !s.should_halt && s.fault is None
}

/// Delivery of interrupt vector `n`: wake, clear the I flag (recomputing
/// S), push the program counter, and jump to the vector's word index.
pub open spec fn spec_deliver(s: CpuView, n: int) -> CpuView {
    let s0 = CpuView { sleeping: false, ..s };
    let s1 = flg(s0, Some(0), None, None, None, None, None, None);
    if !stack2_ok(s1.mem) {
        fault_at(s1, Fault::BusAddress(ipw(s1), spec_sp(s1.mem)))
    } else {
        let s2 = apply_bus(s1, spec_push16(s1.mem, s.ip as u16));
        if s2.fault is Some {
            s2
        } else {
            with_ip(s2, n)
        }
    }
}

/// Poll the interrupt sources in priority order (external pins first, then
/// the timer) and deliver at most one pending vector.
pub open spec fn spec_dispatch(s: CpuView) -> CpuView {
    let p = spec_ext_pending(s.mem);
    if p.1 is Some {
        spec_deliver(CpuView { mem: p.0, ..s }, p.1->Some_0)
    } else {
        let q = spec_timer_pending(s.mem);
        if q.1 is Some {
            spec_deliver(CpuView { mem: q.0, ..s }, q.1->Some_0)
        } else {
            s
        }
    }
}

/// The common first half of a step: peripherals advance, then one pending
/// interrupt may be delivered.  Returns the state just before the fetch.
pub open spec fn spec_step_front(s: CpuView) -> CpuView {
    let e = spec_ext_int_step(s.prev0, s.prev1, s.mem);
    let s1 = CpuView {
        prev0: e.0,
        prev1: e.1,
        mem: e.2,
        fault: if e.3 is Some {
            e.3
        } else {
            s.fault
        },
        ..s
    };
    if s1.fault is Some {
        s1
    } else {
        let t = spec_timer_step(s1.tsteps, s1.mem);
        let s2 = CpuView {
            tsteps: t.0,
            mem: t.1,
            fault: if t.2 is Some {
                t.2
            } else {
                s1.fault
            },
            ..s1
        };
        if s2.fault is Some {
            s2
        } else if spec_bit(flagsv(s2), FLAG_I) == 1 {
            spec_dispatch(s2)
        } else {
            s2
        }
    }
}

/// One interpreter step: peripherals, interrupt delivery, then one fetched
/// instruction, unless halted, faulted, or sleeping.
pub open spec fn spec_step(s: CpuView) -> CpuView {
    if !spec_running(s) {
        s
    } else {
        let s3 = spec_step_front(s);
        if s3.fault is Some || s3.sleeping {
            s3
        } else {
            spec_exec_instr(s3, s3.mem.code[s3.ip])
        }
    }
}

/// One block step: as `spec_step`, but the whole straight-line block at
/// the program counter runs.
pub open spec fn spec_step_block(s: CpuView) -> CpuView {
    if !spec_running(s) {
        s
    } else {
        let s3 = spec_step_front(s);
        if s3.fault is Some || s3.sleeping {
            s3
        } else {
            spec_exec_seq(s3, spec_block_at(s3.mem.code, s3.ip))
        }
    }
}

/// The CPU: it owns the bus, the program counter, the interrupt units, the
/// mode bits, and (when enabled) the cache of compiled basic blocks.
pub struct Cpu {
    /// The program counter, a word index into the instruction cache.
    pub ip: usize,
    /// The bus.
    pub mem: Memory,
    /// Whether the first executed NOP halts the machine (test and headless
    /// mode).
    pub halt_on_nop: bool,
    /// Whether the machine has halted for good.
    pub should_halt: bool,
    /// Whether the machine sleeps until an interrupt.
    pub sleeping: bool,
    /// The external-pin interrupt unit.
    pub port_int: PortInterrupts,
    /// The timer unit.
    pub timer_int: TimerInterrupts,
    /// The diagnostic that stopped execution, if any.
    pub fault: Option<Fault>,
    /// Compiled straight-line blocks by entry word; an empty entry is not
    /// yet compiled.
    pub blocks: Vec<Vec<Instruction>>,
    /// Whether the step loop runs whole blocks instead of single
    /// instructions.
    pub use_blocks: bool,
}

impl View for Cpu {
    type V = CpuView;

    open spec fn view(&self) -> CpuView {
        CpuView {
            mem: self.mem@,
            ip: self.ip as int,
            halt_on_nop: self.halt_on_nop,
            should_halt: self.should_halt,
            sleeping: self.sleeping,
            prev0: self.port_int.prev0,
            prev1: self.port_int.prev1,
            tsteps: self.timer_int.steps,
            fault: self.fault,
        }
    }
}

impl Cpu {
    /// Sizes and cache consistency every operation relies on.
    pub open spec fn wf(self) -> bool {
        &&& self.mem.wf()
        &&& self.ip < MAX_INSTRUCTIONS
        &&& (self.use_blocks ==> self.blocks@.len() == MAX_INSTRUCTIONS)
        &&& (forall|k: int|
            0 <= k < self.blocks@.len() && #[trigger] self.blocks@[k]@.len() > 0
                ==> self.blocks@[k]@ == spec_block_at(self.mem@.code, k))
    }

    /// A CPU over `mem`, at program counter zero, interpreting one
    /// instruction per step.
    pub fn new(mem: Memory, halt_on_nop: bool) -> (r: Cpu)
        requires
            mem.wf(),
        ensures
            r.wf(),
            r@ == (CpuView {
                mem: mem@,
                ip: 0,
                halt_on_nop,
                should_halt: false,
                sleeping: false,
                prev0: 0,
                prev1: 0,
                tsteps: 0,
                fault: None,
            }),
            !r.use_blocks,
    {
        Cpu {
            ip: 0,
            mem,
            halt_on_nop,
            should_halt: false,
            sleeping: false,
            port_int: PortInterrupts::new(),
            timer_int: TimerInterrupts::new(),
            fault: None,
            blocks: Vec::new(),
            use_blocks: false,
        }
    }

    /// General-purpose register `index`.
    pub fn reg(&self, index: u8) -> (r: u8)
        requires
            self.wf(),
            index < 32,
        ensures
            r == regv(self@, index),
    {
        self.mem.reg(index)
    }

    /// Store `val` into general-purpose register `index`.
    pub fn set_reg(&mut self, index: u8, val: u8)
        requires
            old(self).wf(),
            index < 32,
        ensures
            final(self).wf(),
            final(self)@ == upd_reg(old(self)@, index, val),
            final(self).blocks == old(self).blocks,
            final(self).use_blocks == old(self).use_blocks,
    {
        self.mem.set_reg(index, val);
        proof {
            assert(self@ =~= upd_reg(old(self)@, index, val));
        }
    }

    /// The status register.
    pub fn flags(&self) -> (r: u8)
        requires
            self.wf(),
        ensures
            r == flagsv(self@),
    {
        self.mem.flags()
    }

    /// The diagnostic that stopped execution, if any.
    pub fn fault(&self) -> (r: Option<Fault>)
        ensures
            r == self@.fault,
    {
        self.fault
    }

    /// Drain the bytes written to UDR so far.
    pub fn take_output(&mut self) -> (r: Vec<u8>)
        requires
            old(self).wf(),
        ensures
            final(self).wf(),
            r@ == old(self)@.mem.out,
            final(self)@ == (CpuView {
                mem: MemView { out: Seq::<u8>::empty(), ..old(self)@.mem },
                ..old(self)@
            }),
            final(self).blocks == old(self).blocks,
            final(self).use_blocks == old(self).use_blocks,
    {
        let r = self.mem.take_output();
        proof {
            assert(self@ =~= (CpuView {
                mem: MemView { out: Seq::<u8>::empty(), ..old(self)@.mem },
                ..old(self)@
            }));
        }
        r
    }

    /// The register pair at `reg`, `reg + 1`.
    fn get_word_reg(&self, reg: u8) -> (r: u16)
        requires
            self.wf(),
            reg < 31,
        ensures
            r == wordv(self@, reg),
    {
        let lo = self.mem.reg(reg);
        let hi = self.mem.reg(reg + 1);
        (hi as u16) * 256 + (lo as u16)
    }

    /// Store `val` into the register pair at `reg`, low byte first.
    fn set_word_reg(&mut self, reg: u8, val: u16)
        requires
            old(self).wf(),
            reg < 31,
        ensures
            final(self).wf(),
            final(self)@ == upd_word_reg(old(self)@, reg, val),
            final(self).blocks == old(self).blocks,
            final(self).use_blocks == old(self).use_blocks,
    {
        self.mem.set_reg(reg, (val % 256) as u8);
        self.mem.set_reg(reg + 1, (val / 256) as u8);
        proof {
            assert(self@ =~= upd_word_reg(old(self)@, reg, val));
        }
    }

    /// A masked flag write with the S flag recomputed as N xor V.
    fn set_flags(
        &mut self,
        i: Option<u8>,
        t: Option<u8>,
        h: Option<u8>,
        v: Option<u8>,
        n: Option<u8>,
        z: Option<u8>,
        c: Option<u8>,
    )
        requires
            old(self).wf(),
        ensures
            final(self).wf(),
            final(self)@ == flg(old(self)@, i, t, h, v, n, z, c),
            final(self).blocks == old(self).blocks,
            final(self).use_blocks == old(self).use_blocks,
    {
        let f = self.mem.flags();
        let g = apply_flags(f, i, t, h, v, n, z, c);
        self.mem.set_flags(g);
        proof {
            assert(self@ =~= flg(old(self)@, i, t, h, v, n, z, c));
        }
    }

    /// Move the program counter to `t`, or record a jump-target fault if
    /// `t` lies outside program space.
    fn jump_to(&mut self, t: i64)
        requires
            old(self).wf(),
        ensures
            final(self).wf(),
            final(self)@ == with_ip(old(self)@, t as int),
            final(self).blocks == old(self).blocks,
            final(self).use_blocks == old(self).use_blocks,
            final(self).mem == old(self).mem,
    {
        if t >= 0 && t < MAX_INSTRUCTIONS as i64 {
            self.ip = t as usize;
            proof {
                assert(self@ =~= with_ip(old(self)@, t as int));
            }
        } else {
            self.fault = Some(Fault::JumpTarget(self.ip as u16));
            proof {
                assert(self@ =~= with_ip(old(self)@, t as int));
            }
        }
    }
}


impl Cpu {
    /// Advance the program counter by `k` slots.
    fn advance(&mut self, k: u8)
        requires
            old(self).wf(),
        ensures
            final(self).wf(),
            final(self)@ == with_ip(old(self)@, old(self)@.ip + k),
            final(self).blocks == old(self).blocks,
            final(self).use_blocks == old(self).use_blocks,
            final(self).mem == old(self).mem,
    {
        self.jump_to(self.ip as i64 + k as i64);
    }

    /// A skip instruction's control transfer: step over the next
    /// instruction (and its second word, if any) when `cond` holds.
    fn skip(&mut self, cond: bool)
        requires
            old(self).wf(),
        ensures
            final(self).wf(),
            final(self)@ == do_skip(old(self)@, cond),
            final(self).blocks == old(self).blocks,
            final(self).use_blocks == old(self).use_blocks,
            final(self).mem == old(self).mem,
    {
        if !cond {
            self.advance(1);
        } else {
            let t = self.ip + 2;
            if t >= MAX_INSTRUCTIONS {
                self.fault = Some(Fault::JumpTarget(self.ip as u16));
                proof {
                    assert(self@ =~= do_skip(old(self)@, cond));
                }
            } else {
                if self.mem.get_instruction(t) == Instruction::SecondOpWord {
                    self.jump_to(t as i64 + 1);
                } else {
                    self.jump_to(t as i64);
                }
            }
        }
    }


    #[verifier::spinoff_prover]
    fn ex_unknownop(&mut self, instr: Instruction, b: u16)
        requires
            old(self).wf(),
            old(self)@.fault is None,
            instr == Instruction::UnknownOp(b),
        ensures
            final(self).wf(),
            final(self)@ == spec_exec_instr(old(self)@, instr),
            final(self).blocks == old(self).blocks,
            final(self).use_blocks == old(self).use_blocks,
    {
        proof {
            reveal(spec_exec_instr);
        }
            self.fault = Some(Fault::UnknownInstruction(self.ip as u16, b as u32));
            proof {
                assert(self@ =~= spec_exec_instr(old(self)@, instr));
            }
        }

    #[verifier::spinoff_prover]
    fn ex_incompleteop(&mut self, instr: Instruction, b: u32)
        requires
            old(self).wf(),
            old(self)@.fault is None,
            instr == Instruction::IncompleteOp(b),
        ensures
            final(self).wf(),
            final(self)@ == spec_exec_instr(old(self)@, instr),
            final(self).blocks == old(self).blocks,
            final(self).use_blocks == old(self).use_blocks,
    {
        proof {
            reveal(spec_exec_instr);
        }
            self.fault = Some(Fault::UnknownInstruction(self.ip as u16, b));
            proof {
                assert(self@ =~= spec_exec_instr(old(self)@, instr));
            }
        }

    #[verifier::spinoff_prover]
    fn ex_secondopword(&mut self, instr: Instruction)
        requires
            old(self).wf(),
            old(self)@.fault is None,
            instr == Instruction::SecondOpWord,
        ensures
            final(self).wf(),
            final(self)@ == spec_exec_instr(old(self)@, instr),
            final(self).blocks == old(self).blocks,
            final(self).use_blocks == old(self).use_blocks,
    {
        proof {
            reveal(spec_exec_instr);
        }
            self.fault = Some(Fault::BadOperand(self.ip as u16, instr));
            proof {
                assert(self@ =~= spec_exec_instr(old(self)@, instr));
            }
        }

    #[verifier::spinoff_prover]
    fn ex_swap(&mut self, instr: Instruction)
        requires
            old(self).wf(),
            old(self)@.fault is None,
            instr matches Instruction::SWAP(_),
        ensures
            final(self).wf(),
            final(self)@ == spec_exec_instr(old(self)@, instr),
            final(self).blocks == old(self).blocks,
            final(self).use_blocks == old(self).use_blocks,
    {
        proof {
            reveal(spec_exec_instr);
        }
            self.fault = Some(Fault::BadOperand(self.ip as u16, instr));
            proof {
                assert(self@ =~= spec_exec_instr(old(self)@, instr));
            }
        }

    #[verifier::spinoff_prover]
    fn ex_inc(&mut self, instr: Instruction)
        requires
            old(self).wf(),
            old(self)@.fault is None,
            instr matches Instruction::INC(_),
        ensures
            final(self).wf(),
            final(self)@ == spec_exec_instr(old(self)@, instr),
            final(self).blocks == old(self).blocks,
            final(self).use_blocks == old(self).use_blocks,
    {
        proof {
            reveal(spec_exec_instr);
        }
            self.fault = Some(Fault::BadOperand(self.ip as u16, instr));
            proof {
                assert(self@ =~= spec_exec_instr(old(self)@, instr));
            }
        }

    #[verifier::spinoff_prover]
    fn ex_add(&mut self, instr: Instruction, rd: u8, rr: u8)
        requires
            old(self).wf(),
            old(self)@.fault is None,
            instr == Instruction::ADD(rd, rr),
        ensures
            final(self).wf(),
            final(self)@ == spec_exec_instr(old(self)@, instr),
            final(self).blocks == old(self).blocks,
            final(self).use_blocks == old(self).use_blocks,
    {
        proof {
            reveal(spec_exec_instr);
        }
            if rd >= 32 || rr >= 32 {
                self.fault = Some(Fault::BadOperand(self.ip as u16, instr));
                proof {
                    assert(self@ =~= spec_exec_instr(old(self)@, instr));
                }
            } else {
                let a = self.mem.reg(rd);
                let b = self.mem.reg(rr);
                let res = a.wrapping_add(b);
                self.mem.set_reg(rd, res);
                self.set_flags(
                    None,
                    None,
                    Some(add_h(a, b, res)),
                    Some(add_v(a, b, res)),
                    Some(bit(res, 7)),
                    Some(zero_bit(res)),
                    Some(add_c(a, b, res)),
                );
                self.advance(1);
                proof {
                    assert(self@ =~= spec_exec_instr(old(self)@, instr));
                }
            }
        }

    #[verifier::spinoff_prover]
    fn ex_adc(&mut self, instr: Instruction, rd: u8, rr: u8)
        requires
            old(self).wf(),
            old(self)@.fault is None,
            instr == Instruction::ADC(rd, rr),
        ensures
            final(self).wf(),
            final(self)@ == spec_exec_instr(old(self)@, instr),
            final(self).blocks == old(self).blocks,
            final(self).use_blocks == old(self).use_blocks,
    {
        proof {
            reveal(spec_exec_instr);
        }
            if rd >= 32 || rr >= 32 {
                self.fault = Some(Fault::BadOperand(self.ip as u16, instr));
                proof {
                    assert(self@ =~= spec_exec_instr(old(self)@, instr));
                }
            } else {
                let a = self.mem.reg(rd);
                let b = self.mem.reg(rr);
                let c0 = bit(self.mem.flags(), FLAG_C);
                let res = a.wrapping_add(b).wrapping_add(c0);
                self.mem.set_reg(rd, res);
                self.set_flags(
                    None,
                    None,
                    Some(add_h(a, b, res)),
                    Some(add_v(a, b, res)),
                    Some(bit(res, 7)),
                    Some(zero_bit(res)),
                    Some(add_c(a, b, res)),
                );
                self.advance(1);
                proof {
                    assert(self@ =~= spec_exec_instr(old(self)@, instr));
                }
            }
        }

    #[verifier::spinoff_prover]
    fn ex_adiw(&mut self, instr: Instruction, reg: u8, k: u8)
        requires
            old(self).wf(),
            old(self)@.fault is None,
            instr == Instruction::ADIW(reg, k),
        ensures
            final(self).wf(),
            final(self)@ == spec_exec_instr(old(self)@, instr),
            final(self).blocks == old(self).blocks,
            final(self).use_blocks == old(self).use_blocks,
    {
        proof {
            reveal(spec_exec_instr);
        }
            if reg % 2 != 0 || reg >= 31 {
                self.fault = Some(Fault::BadOperand(self.ip as u16, instr));
                proof {
                    assert(self@ =~= spec_exec_instr(old(self)@, instr));
                }
            } else {
                let w = self.get_word_reg(reg);
                let res = w.wrapping_add(k as u16);
                self.set_word_reg(reg, res);
                self.set_flags(
                    None,
                    None,
                    None,
                    Some(bitneg16(w, 15) & bit16(res, 15)),
                    Some(bit16(res, 15)),
                    Some(zero_bit16(res)),
                    Some(bit16(w, 15) & bitneg16(res, 15)),
                );
                self.advance(1);
                proof {
                    assert(self@ =~= spec_exec_instr(old(self)@, instr));
                }
            }
        }

    #[verifier::spinoff_prover]
    fn ex_sbiw(&mut self, instr: Instruction, reg: u8, k: u8)
        requires
            old(self).wf(),
            old(self)@.fault is None,
            instr == Instruction::SBIW(reg, k),
        ensures
            final(self).wf(),
            final(self)@ == spec_exec_instr(old(self)@, instr),
            final(self).blocks == old(self).blocks,
            final(self).use_blocks == old(self).use_blocks,
    {
        proof {
            reveal(spec_exec_instr);
        }
            if reg % 2 != 0 || reg >= 31 {
                self.fault = Some(Fault::BadOperand(self.ip as u16, instr));
                proof {
                    assert(self@ =~= spec_exec_instr(old(self)@, instr));
                }
            } else {
                let w = self.get_word_reg(reg);
                let res = w.wrapping_sub(k as u16);
                self.set_word_reg(reg, res);
                self.set_flags(
                    None,
                    None,
                    None,
                    Some(bit16(w, 15) & bitneg16(res, 15)),
                    Some(bit16(res, 15)),
                    Some(zero_bit16(res)),
                    Some(bitneg16(w, 15) & bit16(res, 15)),
                );
                self.advance(1);
                proof {
                    assert(self@ =~= spec_exec_instr(old(self)@, instr));
                }
            }
        }

    #[verifier::spinoff_prover]
    fn ex_and(&mut self, instr: Instruction, rd: u8, rr: u8)
        requires
            old(self).wf(),
            old(self)@.fault is None,
            instr == Instruction::AND(rd, rr),
        ensures
            final(self).wf(),
            final(self)@ == spec_exec_instr(old(self)@, instr),
            final(self).blocks == old(self).blocks,
            final(self).use_blocks == old(self).use_blocks,
    {
        proof {
            reveal(spec_exec_instr);
        }
            if rd >= 32 || rr >= 32 {
                self.fault = Some(Fault::BadOperand(self.ip as u16, instr));
                proof {
                    assert(self@ =~= spec_exec_instr(old(self)@, instr));
                }
            } else {
                let res = self.mem.reg(rd) & self.mem.reg(rr);
                self.mem.set_reg(rd, res);
                self.set_flags(
                    None,
                    None,
                    None,
                    Some(0),
                    Some(bit(res, 7)),
                    Some(zero_bit(res)),
                    None,
                );
                self.advance(1);
                proof {
                    assert(self@ =~= spec_exec_instr(old(self)@, instr));
                }
            }
        }

    #[verifier::spinoff_prover]
    fn ex_andi(&mut self, instr: Instruction, rd: u8, k: u8)
        requires
            old(self).wf(),
            old(self)@.fault is None,
            instr == Instruction::ANDI(rd, k),
        ensures
            final(self).wf(),
            final(self)@ == spec_exec_instr(old(self)@, instr),
            final(self).blocks == old(self).blocks,
            final(self).use_blocks == old(self).use_blocks,
    {
        proof {
            reveal(spec_exec_instr);
        }
            if rd >= 32 {
                self.fault = Some(Fault::BadOperand(self.ip as u16, instr));
                proof {
                    assert(self@ =~= spec_exec_instr(old(self)@, instr));
                }
            } else {
                let res = self.mem.reg(rd) & k;
                self.mem.set_reg(rd, res);
                self.set_flags(
                    None,
                    None,
                    None,
                    Some(0),
                    Some(bit(res, 7)),
                    Some(zero_bit(res)),
                    None,
                );
                self.advance(1);
                proof {
                    assert(self@ =~= spec_exec_instr(old(self)@, instr));
                }
            }
        }

    #[verifier::spinoff_prover]
    fn ex_or(&mut self, instr: Instruction, rd: u8, rr: u8)
        requires
            old(self).wf(),
            old(self)@.fault is None,
            instr == Instruction::OR(rd, rr),
        ensures
            final(self).wf(),
            final(self)@ == spec_exec_instr(old(self)@, instr),
            final(self).blocks == old(self).blocks,
            final(self).use_blocks == old(self).use_blocks,
    {
        proof {
            reveal(spec_exec_instr);
        }
            if rd >= 32 || rr >= 32 {
                self.fault = Some(Fault::BadOperand(self.ip as u16, instr));
                proof {
                    assert(self@ =~= spec_exec_instr(old(self)@, instr));
                }
            } else {
                let res = self.mem.reg(rd) | self.mem.reg(rr);
                self.mem.set_reg(rd, res);
                self.set_flags(
                    None,
                    None,
                    None,
                    Some(0),
                    Some(bit(res, 7)),
                    Some(zero_bit(res)),
                    None,
                );
                self.advance(1);
                proof {
                    assert(self@ =~= spec_exec_instr(old(self)@, instr));
                }
            }
        }

    #[verifier::spinoff_prover]
    fn ex_ori(&mut self, instr: Instruction, rd: u8, k: u8)
        requires
            old(self).wf(),
            old(self)@.fault is None,
            instr == Instruction::ORI(rd, k),
        ensures
            final(self).wf(),
            final(self)@ == spec_exec_instr(old(self)@, instr),
            final(self).blocks == old(self).blocks,
            final(self).use_blocks == old(self).use_blocks,
    {
        proof {
            reveal(spec_exec_instr);
        }
            if rd >= 32 {
                self.fault = Some(Fault::BadOperand(self.ip as u16, instr));
                proof {
                    assert(self@ =~= spec_exec_instr(old(self)@, instr));
                }
            } else {
                let res = self.mem.reg(rd) | k;
                self.mem.set_reg(rd, res);
                self.set_flags(
                    None,
                    None,
                    None,
                    Some(0),
                    Some(bit(res, 7)),
                    Some(zero_bit(res)),
                    None,
                );
                self.advance(1);
                proof {
                    assert(self@ =~= spec_exec_instr(old(self)@, instr));
                }
            }
        }

    #[verifier::spinoff_prover]
    fn ex_eor(&mut self, instr: Instruction, rd: u8, rr: u8)
        requires
            old(self).wf(),
            old(self)@.fault is None,
            instr == Instruction::EOR(rd, rr),
        ensures
            final(self).wf(),
            final(self)@ == spec_exec_instr(old(self)@, instr),
            final(self).blocks == old(self).blocks,
            final(self).use_blocks == old(self).use_blocks,
    {
        proof {
            reveal(spec_exec_instr);
        }
            if rd >= 32 || rr >= 32 {
                self.fault = Some(Fault::BadOperand(self.ip as u16, instr));
                proof {
                    assert(self@ =~= spec_exec_instr(old(self)@, instr));
                }
            } else {
                let res = self.mem.reg(rd) ^ self.mem.reg(rr);
                self.mem.set_reg(rd, res);
                self.set_flags(
                    None,
                    None,
                    None,
                    Some(0),
                    Some(bit(res, 7)),
                    Some(zero_bit(res)),
                    None,
                );
                self.advance(1);
                proof {
                    assert(self@ =~= spec_exec_instr(old(self)@, instr));
                }
            }
        }

    #[verifier::spinoff_prover]
    fn ex_asr(&mut self, instr: Instruction, reg: u8)
        requires
            old(self).wf(),
            old(self)@.fault is None,
            instr == Instruction::ASR(reg),
        ensures
            final(self).wf(),
            final(self)@ == spec_exec_instr(old(self)@, instr),
            final(self).blocks == old(self).blocks,
            final(self).use_blocks == old(self).use_blocks,
    {
        proof {
            reveal(spec_exec_instr);
        }
            if reg >= 32 {
                self.fault = Some(Fault::BadOperand(self.ip as u16, instr));
                proof {
                    assert(self@ =~= spec_exec_instr(old(self)@, instr));
                }
            } else {
                let a = self.mem.reg(reg);
                #[verifier::truncate]
                let res = ((a as i8) >> 1) as u8;
                self.mem.set_reg(reg, res);
                self.set_flags(
                    None,
                    None,
                    None,
                    Some(bit(res, 7) ^ bit(a, 0)),
                    Some(bit(res, 7)),
                    Some(zero_bit(res)),
                    Some(bit(a, 0)),
                );
                self.advance(1);
                proof {
                    assert(self@ =~= spec_exec_instr(old(self)@, instr));
                }
            }
        }

    #[verifier::spinoff_prover]
    fn ex_lsr(&mut self, instr: Instruction, reg: u8)
        requires
            old(self).wf(),
            old(self)@.fault is None,
            instr == Instruction::LSR(reg),
        ensures
            final(self).wf(),
            final(self)@ == spec_exec_instr(old(self)@, instr),
            final(self).blocks == old(self).blocks,
            final(self).use_blocks == old(self).use_blocks,
    {
        proof {
            reveal(spec_exec_instr);
        }
            if reg >= 32 {
                self.fault = Some(Fault::BadOperand(self.ip as u16, instr));
                proof {
                    assert(self@ =~= spec_exec_instr(old(self)@, instr));
                }
            } else {
                let a = self.mem.reg(reg);
                let res = a >> 1;
                self.mem.set_reg(reg, res);
                self.set_flags(
                    None,
                    None,
                    None,
                    Some(bit(a, 0)),
                    Some(0),
                    Some(zero_bit(res)),
                    Some(bit(a, 0)),
                );
                self.advance(1);
                proof {
                    assert(self@ =~= spec_exec_instr(old(self)@, instr));
                }
            }
        }

    #[verifier::spinoff_prover]
    fn ex_ror(&mut self, instr: Instruction, reg: u8)
        requires
            old(self).wf(),
            old(self)@.fault is None,
            instr == Instruction::ROR(reg),
        ensures
            final(self).wf(),
            final(self)@ == spec_exec_instr(old(self)@, instr),
            final(self).blocks == old(self).blocks,
            final(self).use_blocks == old(self).use_blocks,
    {
        proof {
            reveal(spec_exec_instr);
        }
            if reg >= 32 {
                self.fault = Some(Fault::BadOperand(self.ip as u16, instr));
                proof {
                    assert(self@ =~= spec_exec_instr(old(self)@, instr));
                }
            } else {
                let a = self.mem.reg(reg);
                let c0 = bit(self.mem.flags(), FLAG_C);
                let res = (c0 << 7) | (a >> 1);
                self.mem.set_reg(reg, res);
                self.set_flags(
                    None,
                    None,
                    None,
                    Some(bit(res, 7) ^ bit(a, 0)),
                    Some(bit(res, 7)),
                    Some(zero_bit(res)),
                    Some(bit(a, 0)),
                );
                self.advance(1);
                proof {
                    assert(self@ =~= spec_exec_instr(old(self)@, instr));
                }
            }
        }

    #[verifier::spinoff_prover]
    fn ex_com(&mut self, instr: Instruction, reg: u8)
        requires
            old(self).wf(),
            old(self)@.fault is None,
            instr == Instruction::COM(reg),
        ensures
            final(self).wf(),
            final(self)@ == spec_exec_instr(old(self)@, instr),
            final(self).blocks == old(self).blocks,
            final(self).use_blocks == old(self).use_blocks,
    {
        proof {
            reveal(spec_exec_instr);
        }
            if reg >= 32 {
                self.fault = Some(Fault::BadOperand(self.ip as u16, instr));
                proof {
                    assert(self@ =~= spec_exec_instr(old(self)@, instr));
                }
            } else {
                let res = !self.mem.reg(reg);
                self.mem.set_reg(reg, res);
                self.set_flags(
                    None,
                    None,
                    None,
                    Some(0),
                    Some(bit(res, 7)),
                    Some(zero_bit(res)),
                    Some(1),
                );
                self.advance(1);
                proof {
                    assert(self@ =~= spec_exec_instr(old(self)@, instr));
                }
            }
        }

    #[verifier::spinoff_prover]
    fn ex_neg(&mut self, instr: Instruction, rd: u8)
        requires
            old(self).wf(),
            old(self)@.fault is None,
            instr == Instruction::NEG(rd),
        ensures
            final(self).wf(),
            final(self)@ == spec_exec_instr(old(self)@, instr),
            final(self).blocks == old(self).blocks,
            final(self).use_blocks == old(self).use_blocks,
    {
        proof {
            reveal(spec_exec_instr);
        }
            if rd >= 32 {
                self.fault = Some(Fault::BadOperand(self.ip as u16, instr));
                proof {
                    assert(self@ =~= spec_exec_instr(old(self)@, instr));
                }
            } else {
                let a = self.mem.reg(rd);
                let res = 0u8.wrapping_sub(a);
                self.mem.set_reg(rd, res);
                let vf: u8 = if res == 0x80 { 1 } else { 0 };
                let cf: u8 = if res != 0 { 1 } else { 0 };
                self.set_flags(
                    None,
                    None,
                    Some(bit(res, 3) | bitneg(a, 3)),
                    Some(vf),
                    Some(bit(res, 7)),
                    Some(zero_bit(res)),
                    Some(cf),
                );
                self.advance(1);
                proof {
                    assert(self@ =~= spec_exec_instr(old(self)@, instr));
                }
            }
        }

    #[verifier::spinoff_prover]
    fn ex_dec(&mut self, instr: Instruction, reg: u8)
        requires
            old(self).wf(),
            old(self)@.fault is None,
            instr == Instruction::DEC(reg),
        ensures
            final(self).wf(),
            final(self)@ == spec_exec_instr(old(self)@, instr),
            final(self).blocks == old(self).blocks,
            final(self).use_blocks == old(self).use_blocks,
    {
        proof {
            reveal(spec_exec_instr);
        }
            if reg >= 32 {
                self.fault = Some(Fault::BadOperand(self.ip as u16, instr));
                proof {
                    assert(self@ =~= spec_exec_instr(old(self)@, instr));
                }
            } else {
                let res = self.mem.reg(reg).wrapping_sub(1);
                self.mem.set_reg(reg, res);
                let vf: u8 = if res == 0x7f { 1 } else { 0 };
                self.set_flags(
                    None,
                    None,
                    None,
                    Some(vf),
                    Some(bit(res, 7)),
                    Some(zero_bit(res)),
                    None,
                );
                self.advance(1);
                proof {
                    assert(self@ =~= spec_exec_instr(old(self)@, instr));
                }
            }
        }

    #[verifier::spinoff_prover]
    fn ex_sub(&mut self, instr: Instruction, rd: u8, rr: u8)
        requires
            old(self).wf(),
            old(self)@.fault is None,
            instr == Instruction::SUB(rd, rr),
        ensures
            final(self).wf(),
            final(self)@ == spec_exec_instr(old(self)@, instr),
            final(self).blocks == old(self).blocks,
            final(self).use_blocks == old(self).use_blocks,
    {
        proof {
            reveal(spec_exec_instr);
        }
            if rd >= 32 || rr >= 32 {
                self.fault = Some(Fault::BadOperand(self.ip as u16, instr));
                proof {
                    assert(self@ =~= spec_exec_instr(old(self)@, instr));
                }
            } else {
                let a = self.mem.reg(rd);
                let b = self.mem.reg(rr);
                let res = a.wrapping_sub(b);
                self.mem.set_reg(rd, res);
                self.set_flags(
                    None,
                    None,
                    Some(sub_h(a, b, res)),
                    Some(sub_v(a, b, res)),
                    Some(bit(res, 7)),
                    Some(zero_bit(res)),
                    Some(sub_c(a, b, res)),
                );
                self.advance(1);
                proof {
                    assert(self@ =~= spec_exec_instr(old(self)@, instr));
                }
            }
        }

    #[verifier::spinoff_prover]
    fn ex_subi(&mut self, instr: Instruction, rd: u8, k: u8)
        requires
            old(self).wf(),
            old(self)@.fault is None,
            instr == Instruction::SUBI(rd, k),
        ensures
            final(self).wf(),
            final(self)@ == spec_exec_instr(old(self)@, instr),
            final(self).blocks == old(self).blocks,
            final(self).use_blocks == old(self).use_blocks,
    {
        proof {
            reveal(spec_exec_instr);
        }
            if rd >= 32 {
                self.fault = Some(Fault::BadOperand(self.ip as u16, instr));
                proof {
                    assert(self@ =~= spec_exec_instr(old(self)@, instr));
                }
            } else {
                let a = self.mem.reg(rd);
                let res = a.wrapping_sub(k);
                self.mem.set_reg(rd, res);
                self.set_flags(
                    None,
                    None,
                    Some(sub_h(a, k, res)),
                    Some(sub_v(a, k, res)),
                    Some(bit(res, 7)),
                    Some(zero_bit(res)),
                    Some(sub_c(a, k, res)),
                );
                self.advance(1);
                proof {
                    assert(self@ =~= spec_exec_instr(old(self)@, instr));
                }
            }
        }

    #[verifier::spinoff_prover]
    fn ex_sbc(&mut self, instr: Instruction, rd: u8, rr: u8)
        requires
            old(self).wf(),
            old(self)@.fault is None,
            instr == Instruction::SBC(rd, rr),
        ensures
            final(self).wf(),
            final(self)@ == spec_exec_instr(old(self)@, instr),
            final(self).blocks == old(self).blocks,
            final(self).use_blocks == old(self).use_blocks,
    {
        proof {
            reveal(spec_exec_instr);
        }
            if rd >= 32 || rr >= 32 {
                self.fault = Some(Fault::BadOperand(self.ip as u16, instr));
                proof {
                    assert(self@ =~= spec_exec_instr(old(self)@, instr));
                }
            } else {
                let a = self.mem.reg(rd);
                let b = self.mem.reg(rr);
                let f0 = self.mem.flags();
                let res = a.wrapping_sub(b).wrapping_sub(bit(f0, FLAG_C));
                self.mem.set_reg(rd, res);
                self.set_flags(
                    None,
                    None,
                    Some(sub_h(a, b, res)),
                    Some(sub_v(a, b, res)),
                    Some(bit(res, 7)),
                    Some(zero_bit(res) & bit(f0, FLAG_Z)),
                    Some(sub_c(a, b, res)),
                );
                self.advance(1);
                proof {
                    assert(self@ =~= spec_exec_instr(old(self)@, instr));
                }
            }
        }

    #[verifier::spinoff_prover]
    fn ex_sbci(&mut self, instr: Instruction, rd: u8, k: u8)
        requires
            old(self).wf(),
            old(self)@.fault is None,
            instr == Instruction::SBCI(rd, k),
        ensures
            final(self).wf(),
            final(self)@ == spec_exec_instr(old(self)@, instr),
            final(self).blocks == old(self).blocks,
            final(self).use_blocks == old(self).use_blocks,
    {
        proof {
            reveal(spec_exec_instr);
        }
            if rd >= 32 {
                self.fault = Some(Fault::BadOperand(self.ip as u16, instr));
                proof {
                    assert(self@ =~= spec_exec_instr(old(self)@, instr));
                }
            } else {
                let a = self.mem.reg(rd);
                let f0 = self.mem.flags();
                let res = a.wrapping_sub(k).wrapping_sub(bit(f0, FLAG_C));
                self.mem.set_reg(rd, res);
                self.set_flags(
                    None,
                    None,
                    Some(sub_h(a, k, res)),
                    Some(sub_v(a, k, res)),
                    Some(bit(res, 7)),
                    Some(zero_bit(res) & bit(f0, FLAG_Z)),
                    Some(sub_c(a, k, res)),
                );
                self.advance(1);
                proof {
                    assert(self@ =~= spec_exec_instr(old(self)@, instr));
                }
            }
        }

    #[verifier::spinoff_prover]
    fn ex_cp(&mut self, instr: Instruction, rd: u8, rr: u8)
        requires
            old(self).wf(),
            old(self)@.fault is None,
            instr == Instruction::CP(rd, rr),
        ensures
            final(self).wf(),
            final(self)@ == spec_exec_instr(old(self)@, instr),
            final(self).blocks == old(self).blocks,
            final(self).use_blocks == old(self).use_blocks,
    {
        proof {
            reveal(spec_exec_instr);
        }
            if rd >= 32 || rr >= 32 {
                self.fault = Some(Fault::BadOperand(self.ip as u16, instr));
                proof {
                    assert(self@ =~= spec_exec_instr(old(self)@, instr));
                }
            } else {
                let a = self.mem.reg(rd);
                let b = self.mem.reg(rr);
                let res = a.wrapping_sub(b);
                self.set_flags(
                    None,
                    None,
                    Some(sub_h(a, b, res)),
                    Some(sub_v(a, b, res)),
                    Some(bit(res, 7)),
                    Some(zero_bit(res)),
                    Some(sub_c(a, b, res)),
                );
                self.advance(1);
                proof {
                    assert(self@ =~= spec_exec_instr(old(self)@, instr));
                }
            }
        }

    #[verifier::spinoff_prover]
    fn ex_cpc(&mut self, instr: Instruction, rd: u8, rr: u8)
        requires
            old(self).wf(),
            old(self)@.fault is None,
            instr == Instruction::CPC(rd, rr),
        ensures
            final(self).wf(),
            final(self)@ == spec_exec_instr(old(self)@, instr),
            final(self).blocks == old(self).blocks,
            final(self).use_blocks == old(self).use_blocks,
    {
        proof {
            reveal(spec_exec_instr);
        }
            if rd >= 32 || rr >= 32 {
                self.fault = Some(Fault::BadOperand(self.ip as u16, instr));
                proof {
                    assert(self@ =~= spec_exec_instr(old(self)@, instr));
                }
            } else {
                let a = self.mem.reg(rd);
                let b = self.mem.reg(rr);
                let f0 = self.mem.flags();
                let res = a.wrapping_sub(b).wrapping_sub(bit(f0, FLAG_C));
                self.set_flags(
                    None,
                    None,
                    Some(sub_h(a, b, res)),
                    Some(sub_v(a, b, res)),
                    Some(bit(res, 7)),
                    Some(zero_bit(res) & bit(f0, FLAG_Z)),
                    Some(sub_c(a, b, res)),
                );
                self.advance(1);
                proof {
                    assert(self@ =~= spec_exec_instr(old(self)@, instr));
                }
            }
        }

    #[verifier::spinoff_prover]
    fn ex_cpi(&mut self, instr: Instruction, reg: u8, k: u8)
        requires
            old(self).wf(),
            old(self)@.fault is None,
            instr == Instruction::CPI(reg, k),
        ensures
            final(self).wf(),
            final(self)@ == spec_exec_instr(old(self)@, instr),
            final(self).blocks == old(self).blocks,
            final(self).use_blocks == old(self).use_blocks,
    {
        proof {
            reveal(spec_exec_instr);
        }
            if reg >= 32 {
                self.fault = Some(Fault::BadOperand(self.ip as u16, instr));
                proof {
                    assert(self@ =~= spec_exec_instr(old(self)@, instr));
                }
            } else {
                let a = self.mem.reg(reg);
                let res = a.wrapping_sub(k);
                self.set_flags(
                    None,
                    None,
                    Some(sub_h(a, k, res)),
                    Some(sub_v(a, k, res)),
                    Some(bit(res, 7)),
                    Some(zero_bit(res)),
                    Some(sub_c(a, k, res)),
                );
                self.advance(1);
                proof {
                    assert(self@ =~= spec_exec_instr(old(self)@, instr));
                }
            }
        }

    #[verifier::spinoff_prover]
    #[verifier::rlimit(60)]
    fn ex_mul(&mut self, instr: Instruction, rd: u8, rr: u8)
        requires
            old(self).wf(),
            old(self)@.fault is None,
            instr == Instruction::MUL(rd, rr),
        ensures
            final(self).wf(),
            final(self)@ == spec_exec_instr(old(self)@, instr),
            final(self).blocks == old(self).blocks,
            final(self).use_blocks == old(self).use_blocks,
    {
        proof {
            reveal(spec_exec_instr);
        }
            if rd >= 32 || rr >= 32 {
                self.fault = Some(Fault::BadOperand(self.ip as u16, instr));
                proof {
                    assert(self@ =~= spec_exec_instr(old(self)@, instr));
                }
            } else {
                let a = self.mem.reg(rd);
                let b = self.mem.reg(rr);
                proof {
                    assert((a as int) * (b as int) <= 255 * 255) by (nonlinear_arith)
                        requires
                            a <= 255,
                            b <= 255,
                    ;
                }
                let res = (a as u16) * (b as u16);
                self.set_word_reg(0, res);
                self.set_flags(
                    None,
                    None,
                    None,
                    None,
                    None,
                    Some(zero_bit16(res)),
                    Some(bit16(res, 15)),
                );
                self.advance(1);
                proof {
                    assert(self@ =~= spec_exec_instr(old(self)@, instr));
                }
            }
        }

    #[verifier::spinoff_prover]
    fn ex_mov(&mut self, instr: Instruction, rd: u8, rr: u8)
        requires
            old(self).wf(),
            old(self)@.fault is None,
            instr == Instruction::MOV(rd, rr),
        ensures
            final(self).wf(),
            final(self)@ == spec_exec_instr(old(self)@, instr),
            final(self).blocks == old(self).blocks,
            final(self).use_blocks == old(self).use_blocks,
    {
        proof {
            reveal(spec_exec_instr);
        }
            if rd >= 32 || rr >= 32 {
                self.fault = Some(Fault::BadOperand(self.ip as u16, instr));
                proof {
                    assert(self@ =~= spec_exec_instr(old(self)@, instr));
                }
            } else {
                let v = self.mem.reg(rr);
                self.mem.set_reg(rd, v);
                self.advance(1);
                proof {
                    assert(self@ =~= spec_exec_instr(old(self)@, instr));
                }
            }
        }

    #[verifier::spinoff_prover]
    fn ex_movw(&mut self, instr: Instruction, rd: u8, rr: u8)
        requires
            old(self).wf(),
            old(self)@.fault is None,
            instr == Instruction::MOVW(rd, rr),
        ensures
            final(self).wf(),
            final(self)@ == spec_exec_instr(old(self)@, instr),
            final(self).blocks == old(self).blocks,
            final(self).use_blocks == old(self).use_blocks,
    {
        proof {
            reveal(spec_exec_instr);
        }
            if rd % 2 != 0 || rd >= 31 || rr % 2 != 0 || rr >= 31 {
                self.fault = Some(Fault::BadOperand(self.ip as u16, instr));
                proof {
                    assert(self@ =~= spec_exec_instr(old(self)@, instr));
                }
            } else {
                let v = self.get_word_reg(rr);
                self.set_word_reg(rd, v);
                self.advance(1);
                proof {
                    assert(self@ =~= spec_exec_instr(old(self)@, instr));
                }
            }
        }

    #[verifier::spinoff_prover]
    fn ex_ldi(&mut self, instr: Instruction, reg: u8, v: u8)
        requires
            old(self).wf(),
            old(self)@.fault is None,
            instr == Instruction::LDI(reg, v),
        ensures
            final(self).wf(),
            final(self)@ == spec_exec_instr(old(self)@, instr),
            final(self).blocks == old(self).blocks,
            final(self).use_blocks == old(self).use_blocks,
    {
        proof {
            reveal(spec_exec_instr);
        }
            if reg >= 32 {
                self.fault = Some(Fault::BadOperand(self.ip as u16, instr));
                proof {
                    assert(self@ =~= spec_exec_instr(old(self)@, instr));
                }
            } else {
                self.mem.set_reg(reg, v);
                self.advance(1);
                proof {
                    assert(self@ =~= spec_exec_instr(old(self)@, instr));
                }
            }
        }

    #[verifier::spinoff_prover]
    fn ex_bclr(&mut self, instr: Instruction, b: u8)
        requires
            old(self).wf(),
            old(self)@.fault is None,
            instr == Instruction::BCLR(b),
        ensures
            final(self).wf(),
            final(self)@ == spec_exec_instr(old(self)@, instr),
            final(self).blocks == old(self).blocks,
            final(self).use_blocks == old(self).use_blocks,
    {
        proof {
            reveal(spec_exec_instr);
        }
            if b >= 8 {
                self.fault = Some(Fault::BadOperand(self.ip as u16, instr));
                proof {
                    assert(self@ =~= spec_exec_instr(old(self)@, instr));
                }
            } else {
                let f = self.mem.flags();
                self.mem.set_flags(f & !(1u8 << b));
                self.advance(1);
                proof {
                    assert(self@ =~= spec_exec_instr(old(self)@, instr));
                }
            }
        }

    #[verifier::spinoff_prover]
    fn ex_bset(&mut self, instr: Instruction, b: u8)
        requires
            old(self).wf(),
            old(self)@.fault is None,
            instr == Instruction::BSET(b),
        ensures
            final(self).wf(),
            final(self)@ == spec_exec_instr(old(self)@, instr),
            final(self).blocks == old(self).blocks,
            final(self).use_blocks == old(self).use_blocks,
    {
        proof {
            reveal(spec_exec_instr);
        }
            if b >= 8 {
                self.fault = Some(Fault::BadOperand(self.ip as u16, instr));
                proof {
                    assert(self@ =~= spec_exec_instr(old(self)@, instr));
                }
            } else {
                let f = self.mem.flags();
                self.mem.set_flags(f | (1u8 << b));
                self.advance(1);
                proof {
                    assert(self@ =~= spec_exec_instr(old(self)@, instr));
                }
            }
        }

    #[verifier::spinoff_prover]
    fn ex_bld_st(&mut self, instr: Instruction, typ: LDType, reg: u8, b: u8)
        requires
            old(self).wf(),
            old(self)@.fault is None,
            instr == Instruction::BLD_ST(typ, reg, b),
        ensures
            final(self).wf(),
            final(self)@ == spec_exec_instr(old(self)@, instr),
            final(self).blocks == old(self).blocks,
            final(self).use_blocks == old(self).use_blocks,
    {
        proof {
            reveal(spec_exec_instr);
        }
            if reg >= 32 || b >= 8 {
                self.fault = Some(Fault::BadOperand(self.ip as u16, instr));
                proof {
                    assert(self@ =~= spec_exec_instr(old(self)@, instr));
                }
            } else {
                match typ {
                    LDType::LD => {
                        let t = bit(self.mem.flags(), FLAG_T);
                        let a = self.mem.reg(reg);
                        let res = (a & !(1u8 << b)) | (t << b);
                        self.mem.set_reg(reg, res);
                        self.advance(1);
                    },
                    LDType::ST => {
                        let a = self.mem.reg(reg);
                        self.set_flags(None, Some(bit(a, b)), None, None, None, None, None);
                        self.advance(1);
                    },
                }
                proof {
                    assert(self@ =~= spec_exec_instr(old(self)@, instr));
                }
            }
        }

    #[verifier::spinoff_prover]
    fn ex_brbc_s(&mut self, instr: Instruction, sc: SetClear, sreg: u8, rel: i8)
        requires
            old(self).wf(),
            old(self)@.fault is None,
            instr == Instruction::BRBC_S(sc, sreg, rel),
        ensures
            final(self).wf(),
            final(self)@ == spec_exec_instr(old(self)@, instr),
            final(self).blocks == old(self).blocks,
            final(self).use_blocks == old(self).use_blocks,
    {
        proof {
            reveal(spec_exec_instr);
        }
            if sreg >= 8 {
                self.fault = Some(Fault::BadOperand(self.ip as u16, instr));
                proof {
                    assert(self@ =~= spec_exec_instr(old(self)@, instr));
                }
            } else {
                if bit(self.mem.flags(), sreg) == sc.as_u8() {
                    self.jump_to(self.ip as i64 + rel as i64);
                } else {
                    self.advance(1);
                }
                proof {
                    assert(self@ =~= spec_exec_instr(old(self)@, instr));
                }
            }
        }

    #[verifier::spinoff_prover]
    fn ex_jmp(&mut self, instr: Instruction, k: u32)
        requires
            old(self).wf(),
            old(self)@.fault is None,
            instr == Instruction::JMP(k),
        ensures
            final(self).wf(),
            final(self)@ == spec_exec_instr(old(self)@, instr),
            final(self).blocks == old(self).blocks,
            final(self).use_blocks == old(self).use_blocks,
    {
        proof {
            reveal(spec_exec_instr);
        }
            self.jump_to(k as i64);
            proof {
                assert(self@ =~= spec_exec_instr(old(self)@, instr));
            }
        }

    #[verifier::spinoff_prover]
    fn ex_rjmp(&mut self, instr: Instruction, d: i16)
        requires
            old(self).wf(),
            old(self)@.fault is None,
            instr == Instruction::RJMP(d),
        ensures
            final(self).wf(),
            final(self)@ == spec_exec_instr(old(self)@, instr),
            final(self).blocks == old(self).blocks,
            final(self).use_blocks == old(self).use_blocks,
    {
        proof {
            reveal(spec_exec_instr);
        }
            self.jump_to(self.ip as i64 + d as i64);
            proof {
                assert(self@ =~= spec_exec_instr(old(self)@, instr));
            }
        }

    #[verifier::spinoff_prover]
    fn ex_call(&mut self, instr: Instruction, k: u32)
        requires
            old(self).wf(),
            old(self)@.fault is None,
            instr == Instruction::CALL(k),
        ensures
            final(self).wf(),
            final(self)@ == spec_exec_instr(old(self)@, instr),
            final(self).blocks == old(self).blocks,
            final(self).use_blocks == old(self).use_blocks,
    {
        proof {
            reveal(spec_exec_instr);
        }
            let sp = self.mem.sp();
            if sp >= SRAM_SIZE as u16 || sp.wrapping_sub(1) >= SRAM_SIZE as u16 {
                self.fault = Some(Fault::BusAddress(self.ip as u16, sp));
                proof {
                    assert(self@ =~= spec_exec_instr(old(self)@, instr));
                }
            } else {
                let retip = (self.ip + 2) as u16;
                match self.mem.push16(retip) {
                    Err(f) => {
                        self.fault = Some(f);
                        proof {
                            assert(self@ =~= spec_exec_instr(old(self)@, instr));
                        }
                    },
                    Ok(_) => {
                        self.jump_to(k as i64);
                        proof {
                            assert(self@ =~= spec_exec_instr(old(self)@, instr));
                        }
                    },
                }
            }
        }

    #[verifier::spinoff_prover]
    fn ex_rcall(&mut self, instr: Instruction, d: i16)
        requires
            old(self).wf(),
            old(self)@.fault is None,
            instr == Instruction::RCALL(d),
        ensures
            final(self).wf(),
            final(self)@ == spec_exec_instr(old(self)@, instr),
            final(self).blocks == old(self).blocks,
            final(self).use_blocks == old(self).use_blocks,
    {
        proof {
            reveal(spec_exec_instr);
        }
            let sp = self.mem.sp();
            if sp >= SRAM_SIZE as u16 || sp.wrapping_sub(1) >= SRAM_SIZE as u16 {
                self.fault = Some(Fault::BusAddress(self.ip as u16, sp));
                proof {
                    assert(self@ =~= spec_exec_instr(old(self)@, instr));
                }
            } else {
                let retip = (self.ip + 1) as u16;
                match self.mem.push16(retip) {
                    Err(f) => {
                        self.fault = Some(f);
                        proof {
                            assert(self@ =~= spec_exec_instr(old(self)@, instr));
                        }
                    },
                    Ok(_) => {
                        self.jump_to(self.ip as i64 + d as i64);
                        proof {
                            assert(self@ =~= spec_exec_instr(old(self)@, instr));
                        }
                    },
                }
            }
        }

    #[verifier::spinoff_prover]
    fn ex_icall(&mut self, instr: Instruction)
        requires
            old(self).wf(),
            old(self)@.fault is None,
            instr == Instruction::ICALL,
        ensures
            final(self).wf(),
            final(self)@ == spec_exec_instr(old(self)@, instr),
            final(self).blocks == old(self).blocks,
            final(self).use_blocks == old(self).use_blocks,
    {
        proof {
            reveal(spec_exec_instr);
        }
            let sp = self.mem.sp();
            if sp >= SRAM_SIZE as u16 || sp.wrapping_sub(1) >= SRAM_SIZE as u16 {
                self.fault = Some(Fault::BusAddress(self.ip as u16, sp));
                proof {
                    assert(self@ =~= spec_exec_instr(old(self)@, instr));
                }
            } else {
                let retip = (self.ip + 1) as u16;
                match self.mem.push16(retip) {
                    Err(f) => {
                        self.fault = Some(f);
                        proof {
                            assert(self@ =~= spec_exec_instr(old(self)@, instr));
                        }
                    },
                    Ok(_) => {
                        let z = self.get_word_reg(30);
                        self.jump_to(z as i64);
                        proof {
                            assert(self@ =~= spec_exec_instr(old(self)@, instr));
                        }
                    },
                }
            }
        }

    #[verifier::spinoff_prover]
    fn ex_ret(&mut self, instr: Instruction)
        requires
            old(self).wf(),
            old(self)@.fault is None,
            instr == Instruction::RET,
        ensures
            final(self).wf(),
            final(self)@ == spec_exec_instr(old(self)@, instr),
            final(self).blocks == old(self).blocks,
            final(self).use_blocks == old(self).use_blocks,
    {
        proof {
            reveal(spec_exec_instr);
        }
            let sp = self.mem.sp();
            if sp.wrapping_add(1) >= SRAM_SIZE as u16 || sp.wrapping_add(2) >= SRAM_SIZE
                as u16 {
                self.fault = Some(Fault::BusAddress(self.ip as u16, sp));
                proof {
                    assert(self@ =~= spec_exec_instr(old(self)@, instr));
                }
            } else {
                let v = self.mem.pop16();
                self.jump_to(v as i64);
                proof {
                    assert(self@ =~= spec_exec_instr(old(self)@, instr));
                }
            }
        }

    #[verifier::spinoff_prover]
    fn ex_reti(&mut self, instr: Instruction)
        requires
            old(self).wf(),
            old(self)@.fault is None,
            instr == Instruction::RETI,
        ensures
            final(self).wf(),
            final(self)@ == spec_exec_instr(old(self)@, instr),
            final(self).blocks == old(self).blocks,
            final(self).use_blocks == old(self).use_blocks,
    {
        proof {
            reveal(spec_exec_instr);
        }
            self.set_flags(Some(1), None, None, None, None, None, None);
            let sp = self.mem.sp();
            if sp.wrapping_add(1) >= SRAM_SIZE as u16 || sp.wrapping_add(2) >= SRAM_SIZE
                as u16 {
                self.fault = Some(Fault::BusAddress(self.ip as u16, sp));
                proof {
                    assert(self@ =~= spec_exec_instr(old(self)@, instr));
                }
            } else {
                let v = self.mem.pop16();
                self.jump_to(v as i64);
                proof {
                    assert(self@ =~= spec_exec_instr(old(self)@, instr));
                }
            }
        }

    #[verifier::spinoff_prover]
    fn ex_cpse(&mut self, instr: Instruction, rd: u8, rr: u8)
        requires
            old(self).wf(),
            old(self)@.fault is None,
            instr == Instruction::CPSE(rd, rr),
        ensures
            final(self).wf(),
            final(self)@ == spec_exec_instr(old(self)@, instr),
            final(self).blocks == old(self).blocks,
            final(self).use_blocks == old(self).use_blocks,
    {
        proof {
            reveal(spec_exec_instr);
        }
            if rd >= 32 || rr >= 32 {
                self.fault = Some(Fault::BadOperand(self.ip as u16, instr));
                proof {
                    assert(self@ =~= spec_exec_instr(old(self)@, instr));
                }
            } else {
                let cond = self.mem.reg(rd) == self.mem.reg(rr);
                self.skip(cond);
                proof {
                    assert(self@ =~= spec_exec_instr(old(self)@, instr));
                }
            }
        }

    #[verifier::spinoff_prover]
    fn ex_sbr(&mut self, instr: Instruction, sc: SetClear, reg: u8, b: u8)
        requires
            old(self).wf(),
            old(self)@.fault is None,
            instr == Instruction::SBR(sc, reg, b),
        ensures
            final(self).wf(),
            final(self)@ == spec_exec_instr(old(self)@, instr),
            final(self).blocks == old(self).blocks,
            final(self).use_blocks == old(self).use_blocks,
    {
        proof {
            reveal(spec_exec_instr);
        }
            if reg >= 32 || b >= 8 {
                self.fault = Some(Fault::BadOperand(self.ip as u16, instr));
                proof {
                    assert(self@ =~= spec_exec_instr(old(self)@, instr));
                }
            } else {
                let cond = bit(self.mem.reg(reg), b) == sc.as_u8();
                self.skip(cond);
                proof {
                    assert(self@ =~= spec_exec_instr(old(self)@, instr));
                }
            }
        }

    #[verifier::spinoff_prover]
    fn ex_sbic_s(&mut self, instr: Instruction, sc: SetClear, a: u8, b: u8)
        requires
            old(self).wf(),
            old(self)@.fault is None,
            instr == Instruction::SBIC_S(sc, a, b),
        ensures
            final(self).wf(),
            final(self)@ == spec_exec_instr(old(self)@, instr),
            final(self).blocks == old(self).blocks,
            final(self).use_blocks == old(self).use_blocks,
    {
        proof {
            reveal(spec_exec_instr);
        }
            if a >= 64 || b >= 8 {
                self.fault = Some(Fault::BadOperand(self.ip as u16, instr));
                proof {
                    assert(self@ =~= spec_exec_instr(old(self)@, instr));
                }
            } else {
                let cond = bit(self.mem.io_reg(a), b) == sc.as_u8();
                self.skip(cond);
                proof {
                    assert(self@ =~= spec_exec_instr(old(self)@, instr));
                }
            }
        }

    #[verifier::spinoff_prover]
    fn ex_c_sbi(&mut self, instr: Instruction, sc: SetClear, ioreg: u8, b: u8)
        requires
            old(self).wf(),
            old(self)@.fault is None,
            instr == Instruction::C_SBI(sc, ioreg, b),
        ensures
            final(self).wf(),
            final(self)@ == spec_exec_instr(old(self)@, instr),
            final(self).blocks == old(self).blocks,
            final(self).use_blocks == old(self).use_blocks,
    {
        proof {
            reveal(spec_exec_instr);
        }
            if ioreg >= 64 || b >= 8 {
                self.fault = Some(Fault::BadOperand(self.ip as u16, instr));
                proof {
                    assert(self@ =~= spec_exec_instr(old(self)@, instr));
                }
            } else {
                let v = self.mem.io_reg(ioreg);
                let nv = (v & !(1u8 << b)) | (sc.as_u8() << b);
                match self.mem.set_io_reg(ioreg, nv) {
                    Err(f) => {
                        self.fault = Some(f);
                        proof {
                            assert(self@ =~= spec_exec_instr(old(self)@, instr));
                        }
                    },
                    Ok(_) => {
                        self.advance(1);
                        proof {
                            assert(self@ =~= spec_exec_instr(old(self)@, instr));
                        }
                    },
                }
            }
        }

    #[verifier::spinoff_prover]
    fn ex_in(&mut self, instr: Instruction, reg: u8, idx: u8)
        requires
            old(self).wf(),
            old(self)@.fault is None,
            instr == Instruction::IN(reg, idx),
        ensures
            final(self).wf(),
            final(self)@ == spec_exec_instr(old(self)@, instr),
            final(self).blocks == old(self).blocks,
            final(self).use_blocks == old(self).use_blocks,
    {
        proof {
            reveal(spec_exec_instr);
        }
            if reg >= 32 || idx >= 64 {
                self.fault = Some(Fault::BadOperand(self.ip as u16, instr));
                proof {
                    assert(self@ =~= spec_exec_instr(old(self)@, instr));
                }
            } else {
                let v = self.mem.io_reg(idx);
                self.mem.set_reg(reg, v);
                self.advance(1);
                proof {
                    assert(self@ =~= spec_exec_instr(old(self)@, instr));
                }
            }
        }

    #[verifier::spinoff_prover]
    fn ex_out(&mut self, instr: Instruction, reg: u8, idx: u8)
        requires
            old(self).wf(),
            old(self)@.fault is None,
            instr == Instruction::OUT(reg, idx),
        ensures
            final(self).wf(),
            final(self)@ == spec_exec_instr(old(self)@, instr),
            final(self).blocks == old(self).blocks,
            final(self).use_blocks == old(self).use_blocks,
    {
        proof {
            reveal(spec_exec_instr);
        }
            if reg >= 32 || idx >= 64 {
                self.fault = Some(Fault::BadOperand(self.ip as u16, instr));
                proof {
                    assert(self@ =~= spec_exec_instr(old(self)@, instr));
                }
            } else {
                let v = self.mem.reg(reg);
                match self.mem.set_io_reg(idx, v) {
                    Err(f) => {
                        self.fault = Some(f);
                        proof {
                            assert(self@ =~= spec_exec_instr(old(self)@, instr));
                        }
                    },
                    Ok(_) => {
                        self.advance(1);
                        proof {
                            assert(self@ =~= spec_exec_instr(old(self)@, instr));
                        }
                    },
                }
            }
        }

    #[verifier::spinoff_prover]
    fn ex_ld_st(&mut self, instr: Instruction, typ: LDType, reg: u8, addrreg: u8, mode: LDMode)
        requires
            old(self).wf(),
            old(self)@.fault is None,
            instr == Instruction::LD_ST(typ, reg, addrreg, mode),
        ensures
            final(self).wf(),
            final(self)@ == spec_exec_instr(old(self)@, instr),
            final(self).blocks == old(self).blocks,
            final(self).use_blocks == old(self).use_blocks,
    {
        proof {
            reveal(spec_exec_instr);
        }
            if reg >= 32 || addrreg % 2 != 0 || addrreg >= 31 {
                self.fault = Some(Fault::BadOperand(self.ip as u16, instr));
                proof {
                    assert(self@ =~= spec_exec_instr(old(self)@, instr));
                }
            } else {
                match mode {
                    LDMode::PreDecrement => {
                        let w = self.get_word_reg(addrreg).wrapping_sub(1);
                        self.set_word_reg(addrreg, w);
                    },
                    _ => {},
                }
                let disp: u16 = match mode {
                    LDMode::Displacement(d) => d as u16,
                    _ => 0,
                };
                let addr = self.get_word_reg(addrreg).wrapping_add(disp);
                if addr >= SRAM_SIZE as u16 {
                    self.fault = Some(Fault::BusAddress(self.ip as u16, addr));
                    proof {
                        assert(self@ =~= spec_exec_instr(old(self)@, instr));
                    }
                } else {
                    let mut ok = true;
                    match typ {
                        LDType::LD => {
                            let v = self.mem.data(addr);
                            self.mem.set_reg(reg, v);
                        },
                        LDType::ST => {
                            let v = self.mem.reg(reg);
                            match self.mem.set_data(addr, v) {
                                Err(f) => {
                                    self.fault = Some(f);
                                    ok = false;
                                },
                                Ok(_) => {},
                            }
                        },
                    }
                    if ok {
                        match mode {
                            LDMode::PostIncrement => {
                                let w = self.get_word_reg(addrreg).wrapping_add(1);
                                self.set_word_reg(addrreg, w);
                            },
                            _ => {},
                        }
                        self.advance(1);
                    }
                    proof {
                        assert(self@ =~= spec_exec_instr(old(self)@, instr));
                    }
                }
            }
        }

    #[verifier::spinoff_prover]
    fn ex_ld_sts(&mut self, instr: Instruction, typ: LDType, reg: u8, k: u16)
        requires
            old(self).wf(),
            old(self)@.fault is None,
            instr == Instruction::LD_STS(typ, reg, k),
        ensures
            final(self).wf(),
            final(self)@ == spec_exec_instr(old(self)@, instr),
            final(self).blocks == old(self).blocks,
            final(self).use_blocks == old(self).use_blocks,
    {
        proof {
            reveal(spec_exec_instr);
        }
            if reg >= 32 {
                self.fault = Some(Fault::BadOperand(self.ip as u16, instr));
                proof {
                    assert(self@ =~= spec_exec_instr(old(self)@, instr));
                }
            } else if k >= SRAM_SIZE as u16 {
                self.fault = Some(Fault::BusAddress(self.ip as u16, k));
                proof {
                    assert(self@ =~= spec_exec_instr(old(self)@, instr));
                }
            } else {
                match typ {
                    LDType::LD => {
                        let v = self.mem.data(k);
                        self.mem.set_reg(reg, v);
                        self.advance(2);
                        proof {
                            assert(self@ =~= spec_exec_instr(old(self)@, instr));
                        }
                    },
                    LDType::ST => {
                        let v = self.mem.reg(reg);
                        match self.mem.set_data(k, v) {
                            Err(f) => {
                                self.fault = Some(f);
                                proof {
                                    assert(self@ =~= spec_exec_instr(old(self)@, instr));
                                }
                            },
                            Ok(_) => {
                                self.advance(2);
                                proof {
                                    assert(self@ =~= spec_exec_instr(old(self)@, instr));
                                }
                            },
                        }
                    },
                }
            }
        }

    #[verifier::spinoff_prover]
    fn ex_lpm(&mut self, instr: Instruction, reg: u8, typ: LPMType)
        requires
            old(self).wf(),
            old(self)@.fault is None,
            instr == Instruction::LPM(reg, typ),
        ensures
            final(self).wf(),
            final(self)@ == spec_exec_instr(old(self)@, instr),
            final(self).blocks == old(self).blocks,
            final(self).use_blocks == old(self).use_blocks,
    {
        proof {
            reveal(spec_exec_instr);
        }
            if reg >= 32 {
                self.fault = Some(Fault::BadOperand(self.ip as u16, instr));
                proof {
                    assert(self@ =~= spec_exec_instr(old(self)@, instr));
                }
            } else {
                let z = self.get_word_reg(30);
                if z >= PROGRAM_SIZE as u16 {
                    self.fault = Some(Fault::ProgramAddress(self.ip as u16, z));
                    proof {
                        assert(self@ =~= spec_exec_instr(old(self)@, instr));
                    }
                } else {
                    let v = self.mem.read_program(z);
                    self.mem.set_reg(reg, v);
                    match typ {
                        LPMType::ZPostIncrement => {
                            let w = self.get_word_reg(30).wrapping_add(1);
                            self.set_word_reg(30, w);
                        },
                        LPMType::Z => {},
                    }
                    self.advance(1);
                    proof {
                        assert(self@ =~= spec_exec_instr(old(self)@, instr));
                    }
                }
            }
        }

    #[verifier::spinoff_prover]
    fn ex_push(&mut self, instr: Instruction, reg: u8)
        requires
            old(self).wf(),
            old(self)@.fault is None,
            instr == Instruction::PUSH(reg),
        ensures
            final(self).wf(),
            final(self)@ == spec_exec_instr(old(self)@, instr),
            final(self).blocks == old(self).blocks,
            final(self).use_blocks == old(self).use_blocks,
    {
        proof {
            reveal(spec_exec_instr);
        }
            if reg >= 32 {
                self.fault = Some(Fault::BadOperand(self.ip as u16, instr));
                proof {
                    assert(self@ =~= spec_exec_instr(old(self)@, instr));
                }
            } else {
                let sp = self.mem.sp();
                if sp >= SRAM_SIZE as u16 {
                    self.fault = Some(Fault::BusAddress(self.ip as u16, sp));
                    proof {
                        assert(self@ =~= spec_exec_instr(old(self)@, instr));
                    }
                } else {
                    let v = self.mem.reg(reg);
                    match self.mem.push(v) {
                        Err(f) => {
                            self.fault = Some(f);
                            proof {
                                assert(self@ =~= spec_exec_instr(old(self)@, instr));
                            }
                        },
                        Ok(_) => {
                            self.advance(1);
                            proof {
                                assert(self@ =~= spec_exec_instr(old(self)@, instr));
                            }
                        },
                    }
                }
            }
        }

    #[verifier::spinoff_prover]
    fn ex_pop(&mut self, instr: Instruction, reg: u8)
        requires
            old(self).wf(),
            old(self)@.fault is None,
            instr == Instruction::POP(reg),
        ensures
            final(self).wf(),
            final(self)@ == spec_exec_instr(old(self)@, instr),
            final(self).blocks == old(self).blocks,
            final(self).use_blocks == old(self).use_blocks,
    {
        proof {
            reveal(spec_exec_instr);
        }
            if reg >= 32 {
                self.fault = Some(Fault::BadOperand(self.ip as u16, instr));
                proof {
                    assert(self@ =~= spec_exec_instr(old(self)@, instr));
                }
            } else {
                let sp = self.mem.sp();
                if sp.wrapping_add(1) >= SRAM_SIZE as u16 {
                    self.fault = Some(Fault::BusAddress(self.ip as u16, sp));
                    proof {
                        assert(self@ =~= spec_exec_instr(old(self)@, instr));
                    }
                } else {
                    let v = self.mem.pop();
                    self.mem.set_reg(reg, v);
                    self.advance(1);
                    proof {
                        assert(self@ =~= spec_exec_instr(old(self)@, instr));
                    }
                }
            }
        }

    #[verifier::spinoff_prover]
    fn ex_sleep(&mut self, instr: Instruction)
        requires
            old(self).wf(),
            old(self)@.fault is None,
            instr == Instruction::SLEEP,
        ensures
            final(self).wf(),
            final(self)@ == spec_exec_instr(old(self)@, instr),
            final(self).blocks == old(self).blocks,
            final(self).use_blocks == old(self).use_blocks,
    {
        proof {
            reveal(spec_exec_instr);
        }
            self.sleeping = true;
            self.advance(1);
            proof {
                assert(self@ =~= spec_exec_instr(old(self)@, instr));
            }
        }

    #[verifier::spinoff_prover]
    fn ex_nop(&mut self, instr: Instruction)
        requires
            old(self).wf(),
            old(self)@.fault is None,
            instr == Instruction::NOP,
        ensures
            final(self).wf(),
            final(self)@ == spec_exec_instr(old(self)@, instr),
            final(self).blocks == old(self).blocks,
            final(self).use_blocks == old(self).use_blocks,
    {
        proof {
            reveal(spec_exec_instr);
        }
            if self.halt_on_nop {
                self.should_halt = true;
            }
            self.advance(1);
            proof {
                assert(self@ =~= spec_exec_instr(old(self)@, instr));
            }
        }

    /// Execute one instruction: the canonical semantic routine both the
    /// interpreter and the block runner call.
    pub fn handle_instruction(&mut self, instr: Instruction)
        requires
            old(self).wf(),
            old(self)@.fault is None,
        ensures
            final(self).wf(),
            final(self)@ == spec_exec_instr(old(self)@, instr),
            final(self).blocks == old(self).blocks,
            final(self).use_blocks == old(self).use_blocks,
    {
        match instr {
            Instruction::UnknownOp(b) => self.ex_unknownop(instr, b),
            Instruction::IncompleteOp(b) => self.ex_incompleteop(instr, b),
            Instruction::SecondOpWord => self.ex_secondopword(instr),
            Instruction::SWAP(_) => self.ex_swap(instr),
            Instruction::INC(_) => self.ex_inc(instr),
            Instruction::ADD(rd, rr) => self.ex_add(instr, rd, rr),
            Instruction::ADC(rd, rr) => self.ex_adc(instr, rd, rr),
            Instruction::ADIW(reg, k) => self.ex_adiw(instr, reg, k),
            Instruction::SBIW(reg, k) => self.ex_sbiw(instr, reg, k),
            Instruction::AND(rd, rr) => self.ex_and(instr, rd, rr),
            Instruction::ANDI(rd, k) => self.ex_andi(instr, rd, k),
            Instruction::OR(rd, rr) => self.ex_or(instr, rd, rr),
            Instruction::ORI(rd, k) => self.ex_ori(instr, rd, k),
            Instruction::EOR(rd, rr) => self.ex_eor(instr, rd, rr),
            Instruction::ASR(reg) => self.ex_asr(instr, reg),
            Instruction::LSR(reg) => self.ex_lsr(instr, reg),
            Instruction::ROR(reg) => self.ex_ror(instr, reg),
            Instruction::COM(reg) => self.ex_com(instr, reg),
            Instruction::NEG(rd) => self.ex_neg(instr, rd),
            Instruction::DEC(reg) => self.ex_dec(instr, reg),
            Instruction::SUB(rd, rr) => self.ex_sub(instr, rd, rr),
            Instruction::SUBI(rd, k) => self.ex_subi(instr, rd, k),
            Instruction::SBC(rd, rr) => self.ex_sbc(instr, rd, rr),
            Instruction::SBCI(rd, k) => self.ex_sbci(instr, rd, k),
            Instruction::CP(rd, rr) => self.ex_cp(instr, rd, rr),
            Instruction::CPC(rd, rr) => self.ex_cpc(instr, rd, rr),
            Instruction::CPI(reg, k) => self.ex_cpi(instr, reg, k),
            Instruction::MUL(rd, rr) => self.ex_mul(instr, rd, rr),
            Instruction::MOV(rd, rr) => self.ex_mov(instr, rd, rr),
            Instruction::MOVW(rd, rr) => self.ex_movw(instr, rd, rr),
            Instruction::LDI(reg, v) => self.ex_ldi(instr, reg, v),
            Instruction::BCLR(b) => self.ex_bclr(instr, b),
            Instruction::BSET(b) => self.ex_bset(instr, b),
            Instruction::BLD_ST(typ, reg, b) => self.ex_bld_st(instr, typ, reg, b),
            Instruction::BRBC_S(sc, sreg, rel) => self.ex_brbc_s(instr, sc, sreg, rel),
            Instruction::JMP(k) => self.ex_jmp(instr, k),
            Instruction::RJMP(d) => self.ex_rjmp(instr, d),
            Instruction::CALL(k) => self.ex_call(instr, k),
            Instruction::RCALL(d) => self.ex_rcall(instr, d),
            Instruction::ICALL => self.ex_icall(instr),
            Instruction::RET => self.ex_ret(instr),
            Instruction::RETI => self.ex_reti(instr),
            Instruction::CPSE(rd, rr) => self.ex_cpse(instr, rd, rr),
            Instruction::SBR(sc, reg, b) => self.ex_sbr(instr, sc, reg, b),
            Instruction::SBIC_S(sc, a, b) => self.ex_sbic_s(instr, sc, a, b),
            Instruction::C_SBI(sc, ioreg, b) => self.ex_c_sbi(instr, sc, ioreg, b),
            Instruction::IN(reg, idx) => self.ex_in(instr, reg, idx),
            Instruction::OUT(reg, idx) => self.ex_out(instr, reg, idx),
            Instruction::LD_ST(typ, reg, addrreg, mode) => self.ex_ld_st(instr, typ, reg, addrreg, mode),
            Instruction::LD_STS(typ, reg, k) => self.ex_ld_sts(instr, typ, reg, k),
            Instruction::LPM(reg, typ) => self.ex_lpm(instr, reg, typ),
            Instruction::PUSH(reg) => self.ex_push(instr, reg),
            Instruction::POP(reg) => self.ex_pop(instr, reg),
            Instruction::SLEEP => self.ex_sleep(instr),
            Instruction::NOP => self.ex_nop(instr),
        }
    }
}


impl Cpu {
    /// Whether `i` ends a straight-line block.
    pub fn is_end_of_block(i: Instruction) -> (r: bool)
        ensures
            r == spec_end_of_block(i),
    {
        match i {
            Instruction::BRBC_S(_, _, _) => true,
            Instruction::CALL(_) => true,
            Instruction::CPSE(_, _) => true,
            Instruction::ICALL => true,
            Instruction::JMP(_) => true,
            Instruction::NOP => true,
            Instruction::RCALL(_) => true,
            Instruction::RET => true,
            Instruction::RETI => true,
            Instruction::RJMP(_) => true,
            Instruction::SBIC_S(_, _, _) => true,
            Instruction::SBR(_, _, _) => true,
            Instruction::SLEEP => true,
            Instruction::UnknownOp(_) => true,
            Instruction::IncompleteOp(_) => true,
            Instruction::SWAP(_) => true,
            Instruction::INC(_) => true,
            _ => false,
        }
    }

    /// Collect the straight-line block starting at `addr`: instructions up
    /// to and including the first block ender, skipping `SecondOpWord`
    /// slots.
    fn compile_block(&self, addr: usize) -> (r: Vec<Instruction>)
        requires
            self.wf(),
            addr < MAX_INSTRUCTIONS,
        ensures
            r@ == spec_block_at(self.mem@.code, addr as int),
    {
        let mut out: Vec<Instruction> = Vec::new();
        let mut cur = addr;
        while cur < MAX_INSTRUCTIONS
            invariant
                self.wf(),
                out@ + spec_block_at(self.mem@.code, cur as int) == spec_block_at(
                    self.mem@.code,
                    addr as int,
                ),
                cur <= MAX_INSTRUCTIONS,
            decreases MAX_INSTRUCTIONS - cur,
        {
            let i = self.mem.get_instruction(cur);
            if i == Instruction::SecondOpWord {
                cur = cur + 1;
            } else {
                out.push(i);
                if Cpu::is_end_of_block(i) {
                    proof {
                        assert(out@ =~= spec_block_at(self.mem@.code, addr as int));
                    }
                    return out;
                }
                proof {
                    assert(out@ + spec_block_at(self.mem@.code, cur + 1) =~= spec_block_at(
                        self.mem@.code,
                        addr as int,
                    ));
                }
                cur = cur + 1;
            }
        }
        proof {
            assert(out@ =~= spec_block_at(self.mem@.code, addr as int));
        }
        out
    }

    /// Switch the step loop to block execution, with an empty cache.
    pub fn enable_block_cache(&mut self)
        requires
            old(self).wf(),
        ensures
            final(self).wf(),
            final(self)@ == old(self)@,
            final(self).use_blocks,
    {
        let mut blocks: Vec<Vec<Instruction>> = Vec::new();
        while blocks.len() < MAX_INSTRUCTIONS
            invariant
                blocks@.len() <= MAX_INSTRUCTIONS,
                forall|k: int| 0 <= k < blocks@.len() ==> #[trigger] blocks@[k]@.len() == 0,
            decreases MAX_INSTRUCTIONS - blocks@.len(),
        {
            blocks.push(Vec::new());
        }
        self.blocks = blocks;
        self.use_blocks = true;
        proof {
            assert(self@ =~= old(self)@);
        }
    }

    /// Run the cached block whose entry is `entry`: its instructions in
    /// order, stopping at a fault.
    #[verifier::rlimit(100)]
    #[verifier::spinoff_prover]
    fn run_block(&mut self, entry: usize)
        requires
            old(self).wf(),
            old(self).use_blocks,
            entry < MAX_INSTRUCTIONS,
            old(self).blocks@[entry as int]@ == spec_block_at(old(self)@.mem.code, entry as int),
        ensures
            final(self).wf(),
            final(self)@ == spec_exec_seq(
                old(self)@,
                spec_block_at(old(self)@.mem.code, entry as int),
            ),
            final(self).use_blocks == old(self).use_blocks,
            final(self).blocks == old(self).blocks,
    {
        let ghost block = old(self).blocks@[entry as int]@;
        let n = self.blocks[entry].len();
        let mut k: usize = 0;
        proof {
            assert(block.skip(0) =~= block);
        }
        while k < n
            invariant
                self.wf(),
                self.use_blocks,
                entry < MAX_INSTRUCTIONS,
                self.blocks == old(self).blocks,
                block == old(self).blocks@[entry as int]@,
                n == block.len(),
                k <= n,
                spec_exec_seq(old(self)@, block) == spec_exec_seq(self@, block.skip(k as int)),
            decreases n - k,
        {
            if self.fault.is_some() {
                proof {
                    assert(spec_exec_seq(self@, block.skip(k as int)) == self@);
                    assert(block.skip(n as int) =~= Seq::<Instruction>::empty());
                }
                k = n;
            } else {
                let i = self.blocks[entry][k];
                let ghost pre = self@;
                self.handle_instruction(i);
                proof {
                    assert(block.skip(k as int)[0] == block[k as int]);
                    assert(block.skip(k as int).skip(1) =~= block.skip(k as int + 1));
                    assert(spec_exec_seq(pre, block.skip(k as int)) == spec_exec_seq(
                        self@,
                        block.skip(k as int + 1),
                    ));
                }
                k = k + 1;
            }
        }
        proof {
            assert(block.skip(n as int) =~= Seq::<Instruction>::empty());
        }
    }

    /// The first half of a step, once the machine is known to be running:
    /// advance the peripherals and deliver at most one pending interrupt.
    #[verifier::rlimit(100)]
    #[verifier::spinoff_prover]
    fn step_front(&mut self)
        requires
            old(self).wf(),
            old(self)@.fault is None,
        ensures
            final(self).wf(),
            final(self)@ == spec_step_front(old(self)@),
            final(self).use_blocks == old(self).use_blocks,
            final(self).blocks == old(self).blocks,
    {
        let r0 = self.port_int.step(&mut self.mem);
        if let Err(f) = r0 {
            self.fault = Some(f);
            proof {
                assert(self@ =~= spec_step_front(old(self)@));
            }
            return;
        }
        let r1 = self.timer_int.step(&mut self.mem);
        if let Err(f) = r1 {
            self.fault = Some(f);
            proof {
                assert(self@ =~= spec_step_front(old(self)@));
            }
            return;
        }
        if bit(self.mem.flags(), FLAG_I) == 1 {
            let pend = self.port_int.pending_interrupt(&mut self.mem);
            let vec: Option<usize> = match pend {
                Some(n) => Some(n),
                None => self.timer_int.pending_interrupt(&mut self.mem),
            };
            if let Some(n) = vec {
                self.sleeping = false;
                self.set_flags(Some(0), None, None, None, None, None, None);
                let sp = self.mem.sp();
                if sp >= SRAM_SIZE as u16 || sp.wrapping_sub(1) >= SRAM_SIZE as u16 {
                    self.fault = Some(Fault::BusAddress(self.ip as u16, sp));
                    proof {
                        assert(self@ =~= spec_step_front(old(self)@));
                    }
                    return;
                }
                let retip = self.ip as u16;
                match self.mem.push16(retip) {
                    Err(f) => {
                        self.fault = Some(f);
                        proof {
                            assert(self@ =~= spec_step_front(old(self)@));
                        }
                        return;
                    },
                    Ok(_) => {
                        self.jump_to(n as i64);
                    },
                }
            }
        }
        proof {
            assert(self@ =~= spec_step_front(old(self)@));
        }
    }

    /// One step of the machine: advance the peripherals, deliver at most
    /// one pending interrupt if I is set, then (unless sleeping) execute
    /// one instruction, or one whole cached block in block mode.  Returns
    /// whether the machine was still running when the step began.
    pub fn step(&mut self) -> (r: bool)
        requires
            old(self).wf(),
        ensures
            final(self).wf(),
            r == spec_running(old(self)@),
            final(self).use_blocks == old(self).use_blocks,
            !old(self).use_blocks ==> final(self)@ == spec_step(old(self)@),
            old(self).use_blocks ==> final(self)@ == spec_step_block(old(self)@),
    {
        if self.should_halt || self.fault.is_some() {
            return false;
        }
        self.step_front();
        if self.fault.is_some() {
            return true;
        }
        if self.sleeping {
            return true;
        }
        if !self.use_blocks {
            let i = self.mem.get_instruction(self.ip);
            self.handle_instruction(i);
            true
        } else {
            let e = self.ip;
            if self.blocks[e].len() == 0 {
                let b = self.compile_block(e);
                self.blocks[e] = b;
            }
            self.run_block(e);
            true
        }
    }
}

} // verus!
