//! Machine-checked laws of the core: the sign-flag invariant, the
//! program-counter bound, the cost of two-word instructions, the UDR output
//! discipline, stack and I/O round trips, and the agreement of block
//! execution with the interpreter.

use vstd::prelude::*;

use crate::cpu::{
    flagsv, regv, spec_block_at, spec_end_of_block, spec_exec_instr, spec_exec_seq, spec_running,
    spec_step, spec_step_block, spec_step_front, CpuView,
};
use crate::interrupts::{GICR_ADDR, TCCR1B_ADDR, TIFR_ADDR, TIMSK_ADDR, GIFR_ADDR};
use crate::data::{Fault, Instruction};
use crate::flags::{
    lemma_bit_ops_01, lemma_set_flags_keeps_i, lemma_set_flags_s, spec_set_flags, FLAG_I, FLAG_N,
    FLAG_S, FLAG_V,
};
use crate::util::lemma_bit_01;
use crate::memory::{
    spec_bus_write, spec_sp, MemView, FLAGS_ADDR, MAX_INSTRUCTIONS, SRAM_SIZE, UDR_ADDR,
};
use crate::util::spec_bit;

verus! {

/// The flags an instruction writes through the flag-derivation rule come
/// out with S = N xor V: the rule recomputes S on every such write.
///
/// This covers every arithmetic and logic instruction.  It cannot hold of
/// raw stores to SREG: `BSET 4`, `BCLR 4`, `OUT 0x3F, r`, and stores that
/// hit the SREG bus address write the byte as given.
pub proof fn lemma_derived_flags_sign(
    f: u8,
    i: Option<u8>,
    t: Option<u8>,
    h: Option<u8>,
    v: Option<u8>,
    n: Option<u8>,
    z: Option<u8>,
    c: Option<u8>,
)
    ensures
        ({
            let g = spec_set_flags(f, i, t, h, v, n, z, c);
            spec_bit(g, FLAG_S) == spec_bit(g, FLAG_N) ^ spec_bit(g, FLAG_V)
        }),
{
    lemma_set_flags_s(f, i, t, h, v, n, z, c);
}

/// Which instructions derive their flags through the S-recomputing rule.
pub open spec fn derives_flags(i: Instruction) -> bool {
    match i {
        Instruction::ADD(_, _) => true,
        Instruction::ADC(_, _) => true,
        Instruction::ADIW(_, _) => true,
        Instruction::SBIW(_, _) => true,
        Instruction::AND(_, _) => true,
        Instruction::ANDI(_, _) => true,
        Instruction::OR(_, _) => true,
        Instruction::ORI(_, _) => true,
        Instruction::EOR(_, _) => true,
        Instruction::ASR(_) => true,
        Instruction::LSR(_) => true,
        Instruction::ROR(_) => true,
        Instruction::COM(_) => true,
        Instruction::NEG(_) => true,
        Instruction::DEC(_) => true,
        Instruction::SUB(_, _) => true,
        Instruction::SUBI(_, _) => true,
        Instruction::SBC(_, _) => true,
        Instruction::SBCI(_, _) => true,
        Instruction::CP(_, _) => true,
        Instruction::CPC(_, _) => true,
        Instruction::CPI(_, _) => true,
        Instruction::MUL(_, _) => true,
        _ => false,
    }
}

/// After any instruction that derives its flags, SREG satisfies
/// S = N xor V.
///
/// Instructions that store a raw byte over SREG (`BSET`/`BCLR` of bit 4,
/// `OUT` to address 0x3F, or a memory store that hits the SREG bus slot)
/// are not covered: they write the byte as given, as the silicon does.
#[verifier::rlimit(100)]
#[verifier::spinoff_prover]
pub proof fn lemma_sign_flag_after_alu(s: CpuView, i: Instruction)
    requires
        s.fault is None,
        s.mem.data.len() == SRAM_SIZE,
        derives_flags(i),
        spec_exec_instr(s, i).fault is None,
    ensures
        ({
            let g = flagsv(spec_exec_instr(s, i));
            spec_bit(g, FLAG_S) == spec_bit(g, FLAG_N) ^ spec_bit(g, FLAG_V)
        }),
{
    reveal(spec_exec_instr);
    let s1 = spec_exec_instr(s, i);
    assert forall|
        f: u8,
        a: Option<u8>,
        b: Option<u8>,
        h: Option<u8>,
        v: Option<u8>,
        n: Option<u8>,
        z: Option<u8>,
        c: Option<u8>,
    |
        ({
            let g = #[trigger] spec_set_flags(f, a, b, h, v, n, z, c);
            spec_bit(g, FLAG_S) == spec_bit(g, FLAG_N) ^ spec_bit(g, FLAG_V)
        }) by {
        lemma_set_flags_s(f, a, b, h, v, n, z, c);
    }
}

/// A two-word instruction (LDS or STS) consumes exactly two program-counter
/// increments: the slot of its opcode and the slot of its second word.
pub proof fn lemma_two_word_pc(s: CpuView, i: Instruction)
    requires
        s.fault is None,
        i matches Instruction::LD_STS(_, _, _),
        spec_exec_instr(s, i).fault is None,
    ensures
        spec_exec_instr(s, i).ip == s.ip + 2,
{
    reveal(spec_exec_instr);
}

/// A one-word arithmetic instruction consumes exactly one increment.
pub proof fn lemma_one_word_pc(s: CpuView, i: Instruction)
    requires
        s.fault is None,
        derives_flags(i),
        spec_exec_instr(s, i).fault is None,
    ensures
        spec_exec_instr(s, i).ip == s.ip + 1,
{
    reveal(spec_exec_instr);
}

/// A bus write to UDR appends the byte to the output stream exactly once;
/// a bus write anywhere else leaves the stream alone.  The output stream
/// is what the embedding program forwards to standard output.
pub proof fn lemma_udr_exactly_once(m: MemView, addr: u16, val: u8)
    requires
        m.data.len() == SRAM_SIZE,
    ensures
        addr == UDR_ADDR ==> spec_bus_write(m, addr, val).0.out == m.out.push(val),
        addr != UDR_ADDR ==> spec_bus_write(m, addr, val).0.out == m.out,
{
}

/// No instruction moves the program counter outside program space: a
/// transfer that would leave it faults instead, so the counter stays in
/// `[0, program size in words)` whenever execution goes on.
#[verifier::rlimit(100)]
#[verifier::spinoff_prover]
pub proof fn lemma_pc_in_range_instr(s: CpuView, i: Instruction)
    requires
        0 <= s.ip < MAX_INSTRUCTIONS,
    ensures
        ({
            let s1 = spec_exec_instr(s, i);
            s1.fault is None ==> 0 <= s1.ip < MAX_INSTRUCTIONS
        }),
{
    reveal(spec_exec_instr);
    match i {
        Instruction::UnknownOp(_) => {},
        Instruction::IncompleteOp(_) => {},
        Instruction::SecondOpWord => {},
        Instruction::SWAP(_) => {},
        Instruction::INC(_) => {},
        Instruction::ADD(_, _) => {},
        Instruction::ADC(_, _) => {},
        Instruction::ADIW(_, _) => {},
        Instruction::SBIW(_, _) => {},
        Instruction::AND(_, _) => {},
        Instruction::ANDI(_, _) => {},
        Instruction::OR(_, _) => {},
        Instruction::ORI(_, _) => {},
        Instruction::EOR(_, _) => {},
        Instruction::ASR(_) => {},
        Instruction::LSR(_) => {},
        Instruction::ROR(_) => {},
        Instruction::COM(_) => {},
        Instruction::NEG(_) => {},
        Instruction::DEC(_) => {},
        Instruction::SUB(_, _) => {},
        Instruction::SUBI(_, _) => {},
        Instruction::SBC(_, _) => {},
        Instruction::SBCI(_, _) => {},
        Instruction::CP(_, _) => {},
        Instruction::CPC(_, _) => {},
        Instruction::CPI(_, _) => {},
        Instruction::MUL(_, _) => {},
        Instruction::MOV(_, _) => {},
        Instruction::MOVW(_, _) => {},
        Instruction::LDI(_, _) => {},
        Instruction::BCLR(_) => {},
        Instruction::BSET(_) => {},
        Instruction::BLD_ST(_, _, _) => {},
        Instruction::BRBC_S(_, _, _) => {},
        Instruction::JMP(_) => {},
        Instruction::RJMP(_) => {},
        Instruction::CALL(_) => {},
        Instruction::RCALL(_) => {},
        Instruction::ICALL => {},
        Instruction::RET => {},
        Instruction::RETI => {},
        Instruction::CPSE(_, _) => {},
        Instruction::SBR(_, _, _) => {},
        Instruction::SBIC_S(_, _, _) => {},
        Instruction::C_SBI(_, _, _) => {},
        Instruction::IN(_, _) => {},
        Instruction::OUT(_, _) => {},
        Instruction::LD_ST(_, _, _, _) => {},
        Instruction::LD_STS(_, _, _) => {},
        Instruction::LPM(_, _) => {},
        Instruction::PUSH(_) => {},
        Instruction::POP(_) => {},
        Instruction::SLEEP => {},
        Instruction::NOP => {},
    }
}

/// The program counter stays in range across a whole interpreter step.
pub proof fn lemma_pc_in_range_step(s: CpuView)
    requires
        0 <= s.ip < MAX_INSTRUCTIONS,
    ensures
        ({
            let s1 = spec_step(s);
            s1.fault is None ==> 0 <= s1.ip < MAX_INSTRUCTIONS
        }),
{
    if spec_running(s) {
        let s3 = spec_step_front(s);
        assert(s3.fault is None ==> 0 <= s3.ip < MAX_INSTRUCTIONS);
        if !(s3.fault is Some || s3.sleeping) {
            lemma_pc_in_range_instr(s3, s3.mem.code[s3.ip]);
        }
    }
}

/// The program counter stays in range across a whole block step.
pub proof fn lemma_pc_in_range_seq(s: CpuView, instrs: Seq<Instruction>)
    requires
        0 <= s.ip < MAX_INSTRUCTIONS,
    ensures
        ({
            let s1 = spec_exec_seq(s, instrs);
            s1.fault is None ==> 0 <= s1.ip < MAX_INSTRUCTIONS
        }),
    decreases instrs.len(),
{
    if instrs.len() == 0 || s.fault is Some {
    } else {
        let s1 = spec_exec_instr(s, instrs[0]);
        lemma_pc_in_range_instr(s, instrs[0]);
        if s1.fault is None {
            lemma_pc_in_range_seq(s1, instrs.skip(1));
        } else {
            lemma_faulted_seq(s1, instrs.skip(1));
        }
    }
}

/// Execution of a sequence does nothing once a fault is recorded.
pub proof fn lemma_faulted_seq(s: CpuView, instrs: Seq<Instruction>)
    requires
        s.fault is Some,
    ensures
        spec_exec_seq(s, instrs) == s,
    decreases instrs.len(),
{
}

/// `PUSH r; POP r` leaves every register, the stack pointer, and the
/// status register unchanged; only the stack slot below SP was written.
#[verifier::rlimit(100)]
#[verifier::spinoff_prover]
pub proof fn lemma_push_pop_roundtrip(s: CpuView, r: u8)
    requires
        s.fault is None,
        s.mem.data.len() == SRAM_SIZE,
        r < 32,
        0x60 <= spec_sp(s.mem) < SRAM_SIZE as u16,
        0 <= s.ip,
        s.ip + 2 < MAX_INSTRUCTIONS,
    ensures
        ({
            let s2 = spec_exec_instr(spec_exec_instr(s, Instruction::PUSH(r)), Instruction::POP(r));
            &&& s2.fault is None
            &&& forall|j: u8| j < 32 ==> regv(s2, j) == regv(s, j)
            &&& spec_sp(s2.mem) == spec_sp(s.mem)
            &&& flagsv(s2) == flagsv(s)
            &&& s2.ip == s.ip + 2
            &&& s2.mem.out == s.mem.out
        }),
{
    reveal(spec_exec_instr);
    let sp = spec_sp(s.mem);
    let s1 = spec_exec_instr(s, Instruction::PUSH(r));
    crate::memory::lemma_set_sp16(crate::memory::spec_bus_write(s.mem, sp, regv(s, r)).0, crate::memory::sub_wrap16(sp, 1));
    let s2 = spec_exec_instr(s1, Instruction::POP(r));
    crate::memory::lemma_set_sp16(s1.mem, crate::memory::add_wrap16(spec_sp(s1.mem), 1));
}

/// `CALL L; L: RET` advances the program counter to the instruction after
/// the CALL and leaves the stack pointer unchanged.
#[verifier::rlimit(100)]
#[verifier::spinoff_prover]
pub proof fn lemma_call_ret_roundtrip(s: CpuView, k: u32)
    requires
        s.fault is None,
        s.mem.data.len() == SRAM_SIZE,
        0x61 <= spec_sp(s.mem) < SRAM_SIZE as u16,
        k < MAX_INSTRUCTIONS as u32,
        0 <= s.ip,
        s.ip + 2 < MAX_INSTRUCTIONS,
    ensures
        ({
            let s1 = spec_exec_instr(s, Instruction::CALL(k));
            let s2 = spec_exec_instr(s1, Instruction::RET);
            &&& s1.fault is None
            &&& s1.ip == k
            &&& s2.fault is None
            &&& s2.ip == s.ip + 2
            &&& spec_sp(s2.mem) == spec_sp(s.mem)
        }),
{
    reveal(spec_exec_instr);
    let sp = spec_sp(s.mem);
    let retip = (s.ip + 2) as u16;
    let lo = (retip % 256) as u8;
    let hi = (retip / 256) as u8;
    let m_lo = crate::memory::spec_bus_write(s.mem, sp, lo).0;
    crate::memory::lemma_set_sp16(m_lo, crate::memory::sub_wrap16(sp, 1));
    let m1 = crate::memory::spec_push(s.mem, lo).0;
    let m_hi = crate::memory::spec_bus_write(m1, crate::memory::sub_wrap16(sp, 1), hi).0;
    crate::memory::lemma_set_sp16(m_hi, crate::memory::sub_wrap16(crate::memory::sub_wrap16(sp, 1), 1));
    let s1 = spec_exec_instr(s, Instruction::CALL(k));
    crate::memory::lemma_set_sp16(s1.mem, crate::memory::add_wrap16(spec_sp(s1.mem), 1));
    let mp1 = crate::memory::spec_pop(s1.mem).0;
    crate::memory::lemma_set_sp16(mp1, crate::memory::add_wrap16(spec_sp(mp1), 1));
    assert(hi * 256 + lo == retip) by {
        vstd::arithmetic::div_mod::lemma_fundamental_div_mod(retip as int, 256);
    }
}

/// `IN r, A; OUT A, r` leaves the I/O register unchanged when A is not a
/// port with side effects: the whole data space keeps its bytes apart from
/// the register that received the read, nothing reaches the output stream,
/// and no wire moves.  A PIN/DDR/PORT address, UDR, or ADCSRA is excluded:
/// those writes are observable by design.
#[verifier::rlimit(100)]
#[verifier::spinoff_prover]
pub proof fn lemma_in_out_roundtrip(s: CpuView, r: u8, a: u8)
    requires
        s.fault is None,
        s.mem.data.len() == SRAM_SIZE,
        r < 32,
        a < 64,
        0x20 + a != UDR_ADDR,
        0x20 + a != crate::memory::ADCSRA_ADDR,
        !(0x30 <= 0x20 + a < 0x3C),
        0 <= s.ip,
        s.ip + 2 < MAX_INSTRUCTIONS,
    ensures
        ({
            let s2 = spec_exec_instr(spec_exec_instr(s, Instruction::IN(r, a)), Instruction::OUT(
                r,
                a,
            ));
            &&& s2.fault is None
            &&& s2.mem.data =~= s.mem.data.update(r as int, s.mem.data[0x20 + a])
            &&& s2.mem.data[0x20 + a] == s.mem.data[0x20 + a]
            &&& s2.mem.out == s.mem.out
            &&& s2.mem.pins == s.mem.pins
        }),
{
    reveal(spec_exec_instr);
}

/// Peripheral quiescence: the timer clock is off, both external interrupts
/// are masked, and no interrupt flag that could be delivered is raised.
/// Under it a step's front half (peripherals and dispatch) does nothing.
pub open spec fn quiescent(s: CpuView) -> bool {
    &&& s.mem.data[TCCR1B_ADDR as int] % 8 == 0
    &&& spec_bit(s.mem.data[GICR_ADDR as int], 6) == 0
    &&& spec_bit(s.mem.data[GICR_ADDR as int], 7) == 0
    &&& spec_bit(s.mem.data[GIFR_ADDR as int], 6) == 0
    &&& spec_bit(s.mem.data[GIFR_ADDR as int], 7) == 0
    &&& (spec_bit(s.mem.data[TIMSK_ADDR as int], 4) == 0 || spec_bit(
        s.mem.data[TIFR_ADDR as int],
        4,
    ) == 0)
}

/// With quiescent peripherals the front half of a step is the identity.
pub proof fn lemma_front_quiescent(s: CpuView)
    requires
        s.fault is None,
        s.mem.data.len() == SRAM_SIZE,
        quiescent(s),
    ensures
        spec_step_front(s) == s,
{
    assert(spec_step_front(s) =~= s);
}

/// With quiescent peripherals, an interpreter step is exactly the fetched
/// instruction's semantics, and a block step is exactly the cached block's
/// semantics.  The block cache itself cannot influence the outcome: the
/// step contract fixes the result as a function of the visible state
/// alone, so a block compiled once and reused behaves as if compiled
/// fresh.
pub proof fn lemma_step_is_fetch_execute(s: CpuView)
    requires
        spec_running(s),
        !s.sleeping,
        s.mem.data.len() == SRAM_SIZE,
        quiescent(s),
    ensures
        spec_step(s) == spec_exec_instr(s, s.mem.code[s.ip]),
        spec_step_block(s) == spec_exec_seq(s, spec_block_at(s.mem.code, s.ip)),
{
    lemma_front_quiescent(s);
}

/// Iterated interpreter steps.
pub open spec fn spec_steps(s: CpuView, n: nat) -> CpuView
    decreases n,
{
    if n == 0 {
        s
    } else {
        spec_steps(spec_step(s), (n - 1) as nat)
    }
}

/// A machine that is halted or faulted stays put, however many steps run.
pub proof fn lemma_steps_stuck(s: CpuView, n: nat)
    requires
        !spec_running(s),
    ensures
        spec_steps(s, n) == s,
    decreases n,
{
    if n > 0 {
        lemma_steps_stuck(spec_step(s), (n - 1) as nat)
    }
}

/// The pure two-operand ALU instructions: they read and write registers
/// and derived flags only, and advance the program counter by one.
pub open spec fn pure_alu(i: Instruction) -> bool {
    match i {
        Instruction::ADD(_, _) => true,
        Instruction::ADC(_, _) => true,
        Instruction::SUB(_, _) => true,
        Instruction::SBC(_, _) => true,
        Instruction::AND(_, _) => true,
        Instruction::OR(_, _) => true,
        Instruction::EOR(_, _) => true,
        Instruction::CP(_, _) => true,
        Instruction::CPC(_, _) => true,
        Instruction::MOV(_, _) => true,
        Instruction::MUL(_, _) => true,
        _ => false,
    }
}

/// A pure ALU instruction either faults before any effect (a bad operand)
/// or writes registers and derived flags alone: everything the peripherals
/// and the step loop observe is untouched, the I flag is preserved, and
/// the program counter advances by one, so quiescence survives it.
#[verifier::rlimit(100)]
#[verifier::spinoff_prover]
pub proof fn lemma_alu_effects(s: CpuView, i: Instruction)
    requires
        s.fault is None,
        !s.should_halt,
        s.mem.data.len() == SRAM_SIZE,
        pure_alu(i),
        0 <= s.ip,
        s.ip + 1 < MAX_INSTRUCTIONS,
    ensures
        ({
            let s1 = spec_exec_instr(s, i);
            &&& (s1.fault is Some ==> s1 == (CpuView { fault: s1.fault, ..s }))
            &&& (s1.fault is None ==> {
                &&& s1.ip == s.ip + 1
                &&& s1.mem.code == s.mem.code
                &&& s1.mem.prog == s.mem.prog
                &&& s1.mem.out == s.mem.out
                &&& s1.mem.pins == s.mem.pins
                &&& s1.mem.has_io == s.mem.has_io
                &&& s1.mem.vcc == s.mem.vcc
                &&& s1.mem.data.len() == SRAM_SIZE
                &&& s1.sleeping == s.sleeping
                &&& !s1.should_halt
                &&& s1.halt_on_nop == s.halt_on_nop
                &&& s1.prev0 == s.prev0
                &&& s1.prev1 == s.prev1
                &&& s1.tsteps == s.tsteps
                &&& (quiescent(s) ==> quiescent(s1))
            })
        }),
{
    reveal(spec_exec_instr);
    lemma_bit_01();
    lemma_bit_ops_01();
    assert forall|
        f: u8,
        t: Option<u8>,
        h: Option<u8>,
        v: Option<u8>,
        n: Option<u8>,
        z: Option<u8>,
        c: Option<u8>,
    |
        crate::flags::opt_val(t) <= 1 && crate::flags::opt_val(h) <= 1 && crate::flags::opt_val(v)
            <= 1 && crate::flags::opt_val(n) <= 1 && crate::flags::opt_val(z) <= 1
            && crate::flags::opt_val(c) <= 1 implies spec_bit(
        #[trigger] spec_set_flags(f, None, t, h, v, n, z, c),
        FLAG_I,
    ) == spec_bit(f, FLAG_I) by {
        lemma_set_flags_keeps_i(f, t, h, v, n, z, c);
    }
    match i {
        Instruction::ADD(_, _) => {},
        Instruction::ADC(_, _) => {},
        Instruction::SUB(_, _) => {},
        Instruction::SBC(_, _) => {},
        Instruction::AND(_, _) => {},
        Instruction::OR(_, _) => {},
        Instruction::EOR(_, _) => {},
        Instruction::CP(_, _) => {},
        Instruction::CPC(_, _) => {},
        Instruction::MOV(_, _) => {},
        Instruction::MUL(_, _) => {},
        _ => {},
    }
}

/// Running the straight-line block that starts at the program counter is
/// the same as taking one interpreter step per block instruction: a block
/// of pure ALU instructions closed by one block ender has, step for step,
/// the interpreter's observable effects.  Because the block runner's
/// contract fixes its result as a function of the visible machine state
/// alone, a block compiled once and replayed from the cache behaves
/// exactly like one compiled fresh.
///
/// Quiescent peripherals are required: with a live timer or unmasked
/// external interrupt the interpreter advances peripherals once per
/// instruction but the block runner once per block, and the two can
/// differ.
#[verifier::rlimit(100)]
#[verifier::spinoff_prover]
pub proof fn lemma_block_equals_interpreter_steps(s: CpuView, n: nat)
    requires
        spec_running(s),
        !s.sleeping,
        s.mem.data.len() == SRAM_SIZE,
        s.mem.code.len() == MAX_INSTRUCTIONS,
        0 <= s.ip,
        s.ip + n + 1 < MAX_INSTRUCTIONS,
        quiescent(s),
        forall|j: int| 0 <= j < n ==> pure_alu(#[trigger] s.mem.code[s.ip + j]),
        spec_end_of_block(s.mem.code[s.ip + n]),
    ensures
        spec_step_block(s) == spec_steps(s, n + 1),
    decreases n,
{
    lemma_step_is_fetch_execute(s);
    let code = s.mem.code;
    let b = spec_block_at(code, s.ip);
    let i0 = code[s.ip];
    assert(pure_alu(i0) || spec_end_of_block(i0));
    assert(!(i0 is SecondOpWord));
    if n == 0 {
        assert(b == seq![i0]);
        let s1 = spec_exec_instr(s, i0);
        assert(spec_exec_seq(s, b) == spec_exec_seq(s1, b.skip(1)));
        assert(b.skip(1).len() == 0);
        assert(spec_steps(s, 1) == spec_steps(s1, 0));
    } else {
        assert(pure_alu(i0)) by {
            assert(i0 == code[s.ip + 0]);
        }
        assert(!spec_end_of_block(i0));
        assert(b == seq![i0] + spec_block_at(code, s.ip + 1));
        let s1 = spec_exec_instr(s, i0);
        lemma_alu_effects(s, i0);
        assert(spec_exec_seq(s, b) == spec_exec_seq(s1, b.skip(1)));
        assert(b.skip(1) =~= spec_block_at(code, s.ip + 1));
        if s1.fault is Some {
            lemma_faulted_seq(s1, b.skip(1));
            lemma_steps_stuck(s1, n);
            assert(spec_steps(s, n + 1) == spec_steps(s1, n));
        } else {
            assert(s1.mem.code == code);
            assert(spec_running(s1) && !s1.sleeping && quiescent(s1));
            assert(s1.ip == s.ip + 1);
            assert forall|j: int| 0 <= j < n - 1 implies pure_alu(
                #[trigger] s1.mem.code[s1.ip + j],
            ) by {
                assert(code[s.ip + (j + 1)] == s1.mem.code[s1.ip + j]);
            }
            assert(spec_end_of_block(s1.mem.code[s1.ip + (n - 1)])) by {
                assert(code[s.ip + n] == s1.mem.code[s1.ip + (n - 1)]);
            }
            lemma_block_equals_interpreter_steps(s1, (n - 1) as nat);
            lemma_step_is_fetch_execute(s1);
            assert(spec_step_block(s1) == spec_exec_seq(s1, spec_block_at(code, s1.ip)));
            assert(spec_steps(s, n + 1) == spec_steps(s1, n));
        }
    }
}

} // verus!
