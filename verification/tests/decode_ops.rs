//! Decoder tests: hand-assembled opcode words against the decoded
//! instructions they must produce, one slot per 16-bit word.

use avr_core::data::Instruction::{
    self, ADC, ADD, ADIW, AND, ANDI, ASR, BCLR, BLD_ST, BRBC_S, BSET, CALL, COM, CP, CPC, CPI,
    CPSE, C_SBI, DEC, EOR, ICALL, IN, INC, JMP, LDI, LD_ST, LD_STS, LPM, LSR, MOV, MOVW, MUL, NEG,
    NOP, OR, ORI, OUT, POP, PUSH, RCALL, RET, RETI, RJMP, ROR, SBC, SBCI, SBIC_S, SBIW, SBR,
    SLEEP, SUB, SUBI, SWAP, SecondOpWord,
};
use avr_core::data::LDMode;
use avr_core::data::LDType;
use avr_core::data::LPMType;
use avr_core::data::SetClear::{ClearBit, SetBit};
use avr_core::data::{X, Y, Z};
use avr_core::decoder::decode;

fn expect(words: &[u16], want: &[Instruction]) {
    let mut bytes = Vec::new();
    for w in words {
        bytes.push((*w & 0xff) as u8);
        bytes.push((*w >> 8) as u8);
    }
    let mut it = decode(&bytes);
    let mut got = Vec::new();
    while let Some(i) = it.next() {
        got.push(i);
    }
    assert_eq!(got.as_slice(), want);
}

fn op2(base: u16, d: u8, r: u8) -> u16 {
    base | (((r as u16) & 0x10) << 5) | ((d as u16) << 4) | ((r as u16) & 0xf)
}
fn add(d: u8, r: u8) -> u16 {
    op2(0x0C00, d, r)
}
fn adc(d: u8, r: u8) -> u16 {
    op2(0x1C00, d, r)
}
fn sub(d: u8, r: u8) -> u16 {
    op2(0x1800, d, r)
}
fn sbc(d: u8, r: u8) -> u16 {
    op2(0x0800, d, r)
}
fn and(d: u8, r: u8) -> u16 {
    op2(0x2000, d, r)
}
fn or(d: u8, r: u8) -> u16 {
    op2(0x2800, d, r)
}
fn eor(d: u8, r: u8) -> u16 {
    op2(0x2400, d, r)
}
fn cp(d: u8, r: u8) -> u16 {
    op2(0x1400, d, r)
}
fn cpc(d: u8, r: u8) -> u16 {
    op2(0x0400, d, r)
}
fn cpse(d: u8, r: u8) -> u16 {
    op2(0x1000, d, r)
}
fn mov(d: u8, r: u8) -> u16 {
    op2(0x2C00, d, r)
}
fn mul(d: u8, r: u8) -> u16 {
    op2(0x9C00, d, r)
}
fn movw(d: u8, r: u8) -> u16 {
    0x0100 | (((d as u16) >> 1) << 4) | ((r as u16) >> 1)
}
fn imm8(base: u16, d: u8, k: u8) -> u16 {
    base | (((k as u16) & 0xf0) << 4) | ((((d as u16) - 16) & 0xf) << 4) | ((k as u16) & 0xf)
}
fn cpi(d: u8, k: u8) -> u16 {
    imm8(0x3000, d, k)
}
fn sbci(d: u8, k: u8) -> u16 {
    imm8(0x4000, d, k)
}
fn subi(d: u8, k: u8) -> u16 {
    imm8(0x5000, d, k)
}
fn ori(d: u8, k: u8) -> u16 {
    imm8(0x6000, d, k)
}
fn andi(d: u8, k: u8) -> u16 {
    imm8(0x7000, d, k)
}
fn ldi(d: u8, k: u8) -> u16 {
    imm8(0xE000, d, k)
}
fn one_op(low: u16, d: u8) -> u16 {
    0x9400 | ((d as u16) << 4) | low
}
fn asr(d: u8) -> u16 {
    one_op(5, d)
}
fn lsr(d: u8) -> u16 {
    one_op(6, d)
}
fn ror(d: u8) -> u16 {
    one_op(7, d)
}
fn com(d: u8) -> u16 {
    one_op(0, d)
}
fn neg(d: u8) -> u16 {
    one_op(1, d)
}
fn swap_op(d: u8) -> u16 {
    one_op(2, d)
}
fn inc_op(d: u8) -> u16 {
    one_op(3, d)
}
fn dec_op(d: u8) -> u16 {
    one_op(0xA, d)
}
fn bset_op(s: u8) -> u16 {
    0x9408 | ((s as u16) << 4)
}
fn bclr_op(s: u8) -> u16 {
    0x9488 | ((s as u16) << 4)
}
fn nop() -> u16 {
    0
}
fn adiw(p: u8, k: u8) -> u16 {
    0x9600 | (((k as u16) & 0x30) << 2) | (((((p as u16) - 24) / 2) & 3) << 4) | ((k as u16) & 0xf)
}
fn sbiw(p: u8, k: u8) -> u16 {
    0x9700 | (((k as u16) & 0x30) << 2) | (((((p as u16) - 24) / 2) & 3) << 4) | ((k as u16) & 0xf)
}
fn cbi_op(a: u8, b: u8) -> u16 {
    0x9800 | ((a as u16) << 3) | (b as u16)
}
fn sbic_op(a: u8, b: u8) -> u16 {
    0x9900 | ((a as u16) << 3) | (b as u16)
}
fn sbi_op(a: u8, b: u8) -> u16 {
    0x9A00 | ((a as u16) << 3) | (b as u16)
}
fn sbis_op(a: u8, b: u8) -> u16 {
    0x9B00 | ((a as u16) << 3) | (b as u16)
}
fn in_op(d: u8, a: u8) -> u16 {
    0xB000 | (((a as u16) & 0x30) << 5) | ((d as u16) << 4) | ((a as u16) & 0xf)
}
fn out_op(a: u8, r: u8) -> u16 {
    0xB800 | (((a as u16) & 0x30) << 5) | ((r as u16) << 4) | ((a as u16) & 0xf)
}
fn brbs_op(s: u8, k: i16) -> u16 {
    0xF000 | ((((k - 1) as u16) & 0x7f) << 3) | (s as u16)
}
fn brbc_op(s: u8, k: i16) -> u16 {
    0xF400 | ((((k - 1) as u16) & 0x7f) << 3) | (s as u16)
}
fn bld_op(d: u8, b: u8) -> u16 {
    0xF800 | ((d as u16) << 4) | (b as u16)
}
fn bst_op(d: u8, b: u8) -> u16 {
    0xFA00 | ((d as u16) << 4) | (b as u16)
}
fn sbrc_op(d: u8, b: u8) -> u16 {
    0xFC00 | ((d as u16) << 4) | (b as u16)
}
fn sbrs_op(d: u8, b: u8) -> u16 {
    0xFE00 | ((d as u16) << 4) | (b as u16)
}
fn jmp_op(k: u32) -> [u16; 2] {
    let hi = (k >> 16) as u16;
    [0x940C | ((hi >> 1) << 4) | (hi & 1), (k & 0xffff) as u16]
}
fn call_op(k: u32) -> [u16; 2] {
    let hi = (k >> 16) as u16;
    [0x940E | ((hi >> 1) << 4) | (hi & 1), (k & 0xffff) as u16]
}
fn rjmp_op(k: i16) -> u16 {
    0xC000 | (((k - 1) as u16) & 0xfff)
}
fn rcall_op(k: i16) -> u16 {
    0xD000 | (((k - 1) as u16) & 0xfff)
}
fn ld9(d: u8, low: u16) -> u16 {
    0x9000 | ((d as u16) << 4) | low
}
fn st9(r: u8, low: u16) -> u16 {
    0x9200 | ((r as u16) << 4) | low
}
fn lds_op(d: u8, k: u16) -> [u16; 2] {
    [0x9000 | ((d as u16) << 4), k]
}
fn sts_op(k: u16, r: u8) -> [u16; 2] {
    [0x9200 | ((r as u16) << 4), k]
}
fn lpm_z(d: u8) -> u16 {
    0x9004 | ((d as u16) << 4)
}
fn lpm_zinc(d: u8) -> u16 {
    0x9005 | ((d as u16) << 4)
}
fn pop_op(d: u8) -> u16 {
    0x900F | ((d as u16) << 4)
}
fn push_op(r: u8) -> u16 {
    0x920F | ((r as u16) << 4)
}
fn ldd_op(d: u8, use_y: bool, q: u8) -> u16 {
    let base: u16 = if q >= 32 { 0xA000 } else { 0x8000 };
    base | (((q as u16) & 0x18) << 7) | ((d as u16) << 4) | if use_y { 8 } else { 0 } | ((q
        as u16) & 7)
}
fn std_op(r: u8, use_y: bool, q: u8) -> u16 {
    ldd_op(r, use_y, q) | 0x0200
}

#[test]
fn decoder_add() {
    for (d, r) in [(1, 1), (2, 2), (4, 4), (8, 8), (16, 16), (3, 5), (31, 0), (0, 31), (17, 17)] {
        expect(&[add(d, r)], &[ADD(d, r)]);
    }
    // LSL r is ADD r, r.
    for d in [0, 1, 2, 4, 8, 16, 31] {
        expect(&[add(d, d)], &[ADD(d, d)]);
    }
}

#[test]
fn decoder_adc() {
    for (d, r) in [(1, 1), (2, 2), (4, 4), (8, 8), (16, 16), (3, 5), (31, 0), (0, 31), (17, 17)] {
        expect(&[adc(d, r)], &[ADC(d, r)]);
    }
}

#[test]
fn decoder_adiw() {
    for (p, k) in [(24, 0), (26, 1), (28, 2), (30, 4), (26, 8), (26, 16), (26, 32), (26, 63)] {
        expect(&[adiw(p, k)], &[ADIW(p, k)]);
    }
}

#[test]
fn decoder_and() {
    for (d, r) in [(1, 1), (2, 2), (4, 4), (8, 8), (16, 16), (3, 5), (31, 0), (0, 31), (17, 17)] {
        expect(&[and(d, r)], &[AND(d, r)]);
    }
}

#[test]
fn decoder_andi() {
    for (d, k) in [(16, 16), (17, 50), (18, 100), (20, 101), (24, 240), (31, 255)] {
        expect(&[andi(d, k)], &[ANDI(d, k)]);
    }
    // CBR r, m is ANDI r, !m.
    for (d, k) in [
        (21, 255),
        (22, 254),
        (23, 253),
        (24, 251),
        (25, 247),
        (26, 239),
        (27, 223),
        (28, 191),
        (29, 127),
        (31, 0),
    ] {
        expect(&[andi(d, k)], &[ANDI(d, k)]);
    }
}

#[test]
fn decoder_asr() {
    for d in [0, 1, 2, 4, 8, 16, 31] {
        expect(&[asr(d)], &[ASR(d)]);
    }
}

#[test]
fn decoder_bclr() {
    for s in [0, 1, 2, 4, 7] {
        expect(&[bclr_op(s)], &[BCLR(s)]);
    }
    // CLC, CLZ, CLN, CLV, CLS, CLH, CLT, CLI.
    for s in [0, 1, 2, 3, 4, 5, 6, 7] {
        expect(&[bclr_op(s)], &[BCLR(s)]);
    }
}

#[test]
fn decoder_bset() {
    for s in [0, 1, 2, 4, 7] {
        expect(&[bset_op(s)], &[BSET(s)]);
    }
    // SEC, SEZ, SEN, SEV, SES, SEH, SET, SEI.
    for s in [0, 1, 2, 3, 4, 5, 6, 7] {
        expect(&[bset_op(s)], &[BSET(s)]);
    }
}

#[test]
fn decoder_bld() {
    for (d, b) in [(0, 0), (1, 1), (2, 2), (4, 4), (8, 7), (16, 5), (31, 3)] {
        expect(&[bld_op(d, b)], &[BLD_ST(LDType::LD, d, b)]);
    }
}

#[test]
fn decoder_brbc() {
    expect(&[brbc_op(0, 0)], &[BRBC_S(ClearBit, 0, 0)]);
    expect(&[brbc_op(1, 1), nop()], &[BRBC_S(ClearBit, 1, 1), NOP]);
    expect(&[nop(), brbc_op(2, -1)], &[NOP, BRBC_S(ClearBit, 2, -1)]);
    expect(&[brbc_op(3, 2), nop(), nop()], &[BRBC_S(ClearBit, 3, 2), NOP, NOP]);
    expect(&[nop(), nop(), brbc_op(4, -2)], &[NOP, NOP, BRBC_S(ClearBit, 4, -2)]);
    let mut w = vec![brbc_op(5, 4)];
    let mut e = vec![BRBC_S(ClearBit, 5, 4)];
    for _ in 0..4 {
        w.push(nop());
        e.push(NOP);
    }
    expect(&w, &e);
    for (k, s) in [(8i16, 7u8), (16, 5), (32, 5), (63, 5)] {
        let mut w = vec![brbc_op(s, k)];
        let mut e = vec![BRBC_S(ClearBit, s, k as i8)];
        for _ in 0..k {
            w.push(nop());
            e.push(NOP);
        }
        expect(&w, &e);
    }
    for (k, s) in [(-4i16, 6u8), (-8, 3), (-16, 3), (-32, 3), (-63, 3)] {
        let mut w = Vec::new();
        let mut e = Vec::new();
        for _ in 0..(-k) {
            w.push(nop());
            e.push(NOP);
        }
        w.push(brbc_op(s, k));
        e.push(BRBC_S(ClearBit, s, k as i8));
        expect(&w, &e);
    }
    // BRCC, BRGE, BRHC, BRID, BRNE, BRPL, BRSH, BRTC, BRVC.
    for s in [0, 4, 5, 7, 1, 2, 0, 6, 3] {
        expect(&[brbc_op(s, 1), nop()], &[BRBC_S(ClearBit, s, 1), NOP]);
    }
}

#[test]
fn decoder_brbs() {
    expect(&[brbs_op(0, 0)], &[BRBC_S(SetBit, 0, 0)]);
    expect(&[brbs_op(1, 1), nop()], &[BRBC_S(SetBit, 1, 1), NOP]);
    expect(&[nop(), brbs_op(2, -1)], &[NOP, BRBC_S(SetBit, 2, -1)]);
    expect(&[brbs_op(3, 2), nop(), nop()], &[BRBC_S(SetBit, 3, 2), NOP, NOP]);
    expect(&[nop(), nop(), brbs_op(4, -2)], &[NOP, NOP, BRBC_S(SetBit, 4, -2)]);
    for (k, s) in [(4i16, 5u8), (8, 7), (16, 5), (32, 5), (63, 5)] {
        let mut w = vec![brbs_op(s, k)];
        let mut e = vec![BRBC_S(SetBit, s, k as i8)];
        for _ in 0..k {
            w.push(nop());
            e.push(NOP);
        }
        expect(&w, &e);
    }
    for (k, s) in [(-4i16, 6u8), (-8, 3), (-16, 3), (-32, 3), (-63, 3)] {
        let mut w = Vec::new();
        let mut e = Vec::new();
        for _ in 0..(-k) {
            w.push(nop());
            e.push(NOP);
        }
        w.push(brbs_op(s, k));
        e.push(BRBC_S(SetBit, s, k as i8));
        expect(&w, &e);
    }
    // BRCS, BREQ, BRHS, BRIE, BRLO, BRLT, BRMI, BRTS, BRVS.
    for s in [0, 1, 5, 7, 0, 4, 2, 6, 3] {
        expect(&[brbs_op(s, 1), nop()], &[BRBC_S(SetBit, s, 1), NOP]);
    }
}

#[test]
fn decoder_bst() {
    for (d, b) in [(0, 0), (1, 1), (2, 2), (4, 4), (8, 7), (16, 5), (31, 3)] {
        expect(&[bst_op(d, b)], &[BLD_ST(LDType::ST, d, b)]);
    }
}

#[test]
fn decoder_call() {
    // CALL takes a byte address in assembly; the decoder yields its word
    // index.
    for k in [
        0u32, 1, 2, 4, 8, 16, 32, 64, 128, 256, 512, 1024, 2048, 4096, 8192, 16384, 32767, 6173,
    ] {
        let c = call_op(k);
        expect(&[c[0], c[1]], &[CALL(k), SecondOpWord]);
    }
}

#[test]
fn decoder_cbi() {
    for (a, b) in [(0, 0), (1, 1), (2, 2), (4, 4), (8, 7), (16, 5), (31, 3)] {
        expect(&[cbi_op(a, b)], &[C_SBI(ClearBit, a, b)]);
    }
}

#[test]
fn decoder_sbi() {
    for (a, b) in [(0, 0), (1, 1), (2, 2), (4, 4), (8, 7), (16, 5), (31, 3)] {
        expect(&[sbi_op(a, b)], &[C_SBI(SetBit, a, b)]);
    }
}

#[test]
fn decoder_com() {
    for d in [0, 1, 2, 4, 8, 16, 31] {
        expect(&[com(d)], &[COM(d)]);
    }
}

#[test]
fn decoder_cp() {
    for (d, r) in [(1, 1), (2, 2), (4, 4), (8, 8), (16, 16), (3, 5), (31, 0), (0, 31), (17, 17)] {
        expect(&[cp(d, r)], &[CP(d, r)]);
    }
}

#[test]
fn decoder_cpc() {
    for (d, r) in [(1, 1), (2, 2), (4, 4), (8, 8), (16, 16), (3, 5), (31, 0), (0, 31), (17, 17)] {
        expect(&[cpc(d, r)], &[CPC(d, r)]);
    }
}

#[test]
fn decoder_cpi() {
    for (d, k) in [
        (16, 0),
        (20, 1),
        (23, 2),
        (24, 4),
        (25, 8),
        (26, 16),
        (27, 32),
        (28, 64),
        (29, 128),
        (31, 255),
    ] {
        expect(&[cpi(d, k)], &[CPI(d, k)]);
    }
}

#[test]
fn decoder_cpse() {
    for (d, r) in [(1, 1), (2, 2), (4, 4), (8, 8), (16, 16), (3, 5), (31, 0), (0, 31), (17, 17)] {
        expect(&[cpse(d, r)], &[CPSE(d, r)]);
    }
}

#[test]
fn decoder_dec() {
    for d in [0, 1, 2, 4, 8, 16, 31] {
        expect(&[dec_op(d)], &[DEC(d)]);
    }
}

#[test]
fn decoder_eor() {
    for (d, r) in [
        (0, 0),
        (1, 1),
        (2, 2),
        (4, 4),
        (8, 8),
        (16, 16),
        (3, 5),
        (31, 0),
        (0, 31),
        (17, 17),
    ] {
        expect(&[eor(d, r)], &[EOR(d, r)]);
    }
}

#[test]
fn decoder_icall() {
    expect(&[0x9509], &[ICALL]);
}

#[test]
fn decoder_in_() {
    for (d, a) in [(0, 0), (1, 1), (2, 2), (4, 4), (8, 8), (16, 16), (31, 32), (25, 63)] {
        expect(&[in_op(d, a)], &[IN(d, a)]);
    }
}

#[test]
fn inc() {
    for d in [0, 2, 1, 4, 8, 16, 31] {
        expect(&[inc_op(d)], &[INC(d)]);
    }
}

#[test]
fn decoder_jmp() {
    for k in [
        0u32, 1, 2, 4, 8, 16, 32, 64, 128, 256, 512, 1024, 2048, 4096, 8192, 16384, 32767, 6173,
    ] {
        let j = jmp_op(k);
        expect(&[j[0], j[1]], &[JMP(k), SecondOpWord]);
    }
}

#[test]
fn ld_x() {
    for d in [0, 1, 2, 4, 8, 16, 31] {
        expect(&[ld9(d, 12)], &[LD_ST(LDType::LD, d, X, LDMode::Displacement(0))]);
    }
    for d in [0, 1, 2, 4, 8, 16, 31] {
        expect(&[ld9(d, 13)], &[LD_ST(LDType::LD, d, X, LDMode::PostIncrement)]);
    }
    for d in [0, 1, 2, 4, 8, 16, 31] {
        expect(&[ld9(d, 14)], &[LD_ST(LDType::LD, d, X, LDMode::PreDecrement)]);
    }
}

#[test]
fn ld_y() {
    for d in [0, 1, 2, 4, 8, 16, 31] {
        expect(&[ldd_op(d, true, 0)], &[LD_ST(LDType::LD, d, Y, LDMode::Displacement(0))]);
    }
    for d in [0, 1, 2, 4, 8, 16, 31] {
        expect(&[ld9(d, 9)], &[LD_ST(LDType::LD, d, Y, LDMode::PostIncrement)]);
    }
    for d in [0, 1, 2, 4, 8, 16, 31] {
        expect(&[ld9(d, 10)], &[LD_ST(LDType::LD, d, Y, LDMode::PreDecrement)]);
    }
    for (d, q) in [(0, 0), (1, 1), (2, 2), (4, 4), (8, 8), (16, 16), (31, 32), (31, 63)] {
        expect(&[ldd_op(d, true, q)], &[LD_ST(LDType::LD, d, Y, LDMode::Displacement(q))]);
    }
}

#[test]
fn ld_z() {
    for d in [0, 1, 2, 4, 8, 16, 31] {
        expect(&[ldd_op(d, false, 0)], &[LD_ST(LDType::LD, d, Z, LDMode::Displacement(0))]);
    }
    for d in [0, 1, 2, 4, 8, 16, 31] {
        expect(&[ld9(d, 1)], &[LD_ST(LDType::LD, d, Z, LDMode::PostIncrement)]);
    }
    for d in [0, 1, 2, 4, 8, 16, 31] {
        expect(&[ld9(d, 2)], &[LD_ST(LDType::LD, d, Z, LDMode::PreDecrement)]);
    }
    for (d, q) in [(0, 0), (1, 1), (2, 2), (4, 4), (8, 8), (16, 16), (31, 32), (31, 63)] {
        expect(&[ldd_op(d, false, q)], &[LD_ST(LDType::LD, d, Z, LDMode::Displacement(q))]);
    }
}

#[test]
fn st_x() {
    for r in [0, 1, 2, 4, 8, 16, 31] {
        expect(&[st9(r, 12)], &[LD_ST(LDType::ST, r, X, LDMode::Displacement(0))]);
    }
    for r in [0, 1, 2, 4, 8, 16, 31] {
        expect(&[st9(r, 13)], &[LD_ST(LDType::ST, r, X, LDMode::PostIncrement)]);
    }
    for r in [0, 1, 2, 4, 8, 16, 31] {
        expect(&[st9(r, 14)], &[LD_ST(LDType::ST, r, X, LDMode::PreDecrement)]);
    }
}

#[test]
fn st_y() {
    for r in [0, 1, 2, 4, 8, 16, 31] {
        expect(&[std_op(r, true, 0)], &[LD_ST(LDType::ST, r, Y, LDMode::Displacement(0))]);
    }
    for r in [0, 1, 2, 4, 8, 16, 31] {
        expect(&[st9(r, 9)], &[LD_ST(LDType::ST, r, Y, LDMode::PostIncrement)]);
    }
    for r in [0, 1, 2, 4, 8, 16, 31] {
        expect(&[st9(r, 10)], &[LD_ST(LDType::ST, r, Y, LDMode::PreDecrement)]);
    }
    for (r, q) in [(0, 0), (1, 1), (2, 2), (4, 4), (8, 8), (16, 16), (31, 32), (31, 63)] {
        expect(&[std_op(r, true, q)], &[LD_ST(LDType::ST, r, Y, LDMode::Displacement(q))]);
    }
}

#[test]
fn st_z() {
    for r in [0, 1, 2, 4, 8, 16, 31] {
        expect(&[std_op(r, false, 0)], &[LD_ST(LDType::ST, r, Z, LDMode::Displacement(0))]);
    }
    for r in [0, 1, 2, 4, 8, 16, 31] {
        expect(&[st9(r, 1)], &[LD_ST(LDType::ST, r, Z, LDMode::PostIncrement)]);
    }
    for r in [0, 1, 2, 4, 8, 16, 31] {
        expect(&[st9(r, 2)], &[LD_ST(LDType::ST, r, Z, LDMode::PreDecrement)]);
    }
    for (r, q) in [(0, 0), (1, 1), (2, 2), (4, 4), (8, 8), (16, 16), (31, 32), (31, 63)] {
        expect(&[std_op(r, false, q)], &[LD_ST(LDType::ST, r, Z, LDMode::Displacement(q))]);
    }
}

#[test]
fn decoder_ldi() {
    for (d, k) in [
        (16, 0),
        (20, 1),
        (23, 2),
        (24, 4),
        (25, 8),
        (26, 16),
        (27, 32),
        (28, 64),
        (29, 128),
        (31, 255),
    ] {
        expect(&[ldi(d, k)], &[LDI(d, k)]);
    }
}

#[test]
fn decoder_lds() {
    for (d, k) in [
        (0, 0),
        (1, 1),
        (2, 2),
        (4, 4),
        (8, 8),
        (16, 16),
        (31, 32),
        (31, 64),
        (31, 128),
        (31, 256),
        (31, 512),
        (31, 1024),
        (31, 2048),
        (31, 65535),
    ] {
        let l = lds_op(d, k);
        expect(&[l[0], l[1]], &[LD_STS(LDType::LD, d, k), SecondOpWord]);
    }
}

#[test]
fn sts() {
    for (k, r) in [
        (0, 0),
        (1, 1),
        (2, 2),
        (4, 4),
        (8, 8),
        (16, 16),
        (32, 31),
        (64, 31),
        (128, 31),
        (256, 31),
        (512, 31),
        (1024, 31),
        (2048, 31),
        (65535, 31),
    ] {
        let s = sts_op(k, r);
        expect(&[s[0], s[1]], &[LD_STS(LDType::ST, r, k), SecondOpWord]);
    }
}

#[test]
fn decoder_lpm() {
    // Bare LPM loads r0 through Z.
    expect(&[0x95C8], &[LPM(0, LPMType::Z)]);
    for d in [0, 1, 2, 4, 8, 16, 31] {
        expect(&[lpm_z(d)], &[LPM(d, LPMType::Z)]);
    }
    for d in [0, 1, 2, 4, 8, 16, 31] {
        expect(&[lpm_zinc(d)], &[LPM(d, LPMType::ZPostIncrement)]);
    }
}

#[test]
fn decoder_lsr() {
    for d in [0, 1, 2, 4, 8, 16, 31] {
        expect(&[lsr(d)], &[LSR(d)]);
    }
}

#[test]
fn decoder_mov() {
    for (d, r) in [(1, 1), (2, 2), (4, 4), (8, 8), (16, 16), (3, 5), (31, 0), (0, 31), (17, 17)] {
        expect(&[mov(d, r)], &[MOV(d, r)]);
    }
}

#[test]
fn decoder_movw() {
    for d in [0, 2, 4, 8, 16, 30] {
        expect(&[movw(d, d)], &[MOVW(d, d)]);
    }
}

#[test]
fn decoder_mul() {
    for (d, r) in [(1, 1), (2, 2), (4, 4), (8, 8), (16, 16), (3, 5), (31, 0), (0, 31), (17, 17)] {
        expect(&[mul(d, r)], &[MUL(d, r)]);
    }
}

#[test]
fn decoder_neg() {
    for d in [0, 1, 2, 4, 8, 16, 31] {
        expect(&[neg(d)], &[NEG(d)]);
    }
}

#[test]
fn decoder_or() {
    for (d, r) in [
        (0, 0),
        (1, 1),
        (2, 2),
        (4, 4),
        (8, 8),
        (16, 16),
        (3, 5),
        (31, 0),
        (0, 31),
        (17, 17),
    ] {
        expect(&[or(d, r)], &[OR(d, r)]);
    }
}

#[test]
fn decoder_ori() {
    for (d, k) in [(16, 16), (17, 50), (18, 100), (20, 101), (24, 240), (31, 255)] {
        expect(&[ori(d, k)], &[ORI(d, k)]);
    }
}

#[test]
fn out_() {
    for (a, r) in [(0, 0), (1, 1), (2, 2), (4, 4), (8, 8), (16, 16), (32, 31), (63, 25)] {
        expect(&[out_op(a, r)], &[OUT(r, a)]);
    }
}

#[test]
fn decoder_pop() {
    for d in [0, 1, 2, 4, 8, 16, 31] {
        expect(&[pop_op(d)], &[POP(d)]);
    }
}

#[test]
fn decoder_push() {
    for r in [0, 1, 2, 4, 8, 16, 31] {
        expect(&[push_op(r)], &[PUSH(r)]);
    }
}

#[test]
fn decoder_rcall() {
    expect(&[rcall_op(0)], &[RCALL(0)]);
    expect(&[nop(), rcall_op(-1)], &[NOP, RCALL(-1)]);
    expect(&[rcall_op(1), nop()], &[RCALL(1), NOP]);
    expect(&[nop(), nop(), rcall_op(-2)], &[NOP, NOP, RCALL(-2)]);
    expect(&[rcall_op(2), nop(), nop()], &[RCALL(2), NOP, NOP]);
}

#[test]
fn decoder_ret() {
    expect(&[0x9508], &[RET]);
}

#[test]
fn decoder_reti() {
    expect(&[0x9518], &[RETI]);
}

#[test]
fn decoder_rjmp() {
    expect(&[rjmp_op(0)], &[RJMP(0)]);
    expect(&[nop(), rjmp_op(-1)], &[NOP, RJMP(-1)]);
    expect(&[rjmp_op(1), nop()], &[RJMP(1), NOP]);
    expect(&[nop(), nop(), rjmp_op(-2)], &[NOP, NOP, RJMP(-2)]);
    expect(&[rjmp_op(2), nop(), nop()], &[RJMP(2), NOP, NOP]);
}

#[test]
fn decoder_ror() {
    for d in [0, 1, 2, 4, 8, 16, 31] {
        expect(&[ror(d)], &[ROR(d)]);
    }
}

#[test]
fn decoder_sbc() {
    for (d, r) in [(1, 1), (2, 2), (4, 4), (8, 8), (16, 16), (3, 5), (31, 0), (0, 31), (17, 17)] {
        expect(&[sbc(d, r)], &[SBC(d, r)]);
    }
}

#[test]
fn decoder_sub() {
    for (d, r) in [(1, 1), (2, 2), (4, 4), (8, 8), (16, 16), (3, 5), (31, 0), (0, 31), (17, 17)] {
        expect(&[sub(d, r)], &[SUB(d, r)]);
    }
}

#[test]
fn decoder_sbci() {
    for (d, k) in [
        (16, 0),
        (20, 1),
        (23, 2),
        (24, 4),
        (25, 8),
        (26, 16),
        (27, 32),
        (28, 64),
        (29, 128),
        (31, 255),
    ] {
        expect(&[sbci(d, k)], &[SBCI(d, k)]);
    }
}

#[test]
fn decoder_sbic() {
    for (a, b) in [(0, 0), (1, 1), (2, 2), (4, 4), (8, 7), (16, 5), (31, 3)] {
        expect(&[sbic_op(a, b)], &[SBIC_S(ClearBit, a, b)]);
    }
}

#[test]
fn decoder_sbis() {
    for (a, b) in [(0, 0), (1, 1), (2, 2), (4, 4), (8, 7), (16, 5), (31, 3)] {
        expect(&[sbis_op(a, b)], &[SBIC_S(SetBit, a, b)]);
    }
}

#[test]
fn decoder_sbiw() {
    for (p, k) in [(24, 0), (26, 1), (28, 2), (30, 4), (26, 8), (26, 16), (26, 32), (26, 63)] {
        expect(&[sbiw(p, k)], &[SBIW(p, k)]);
    }
}

#[test]
fn decoder_sbrc() {
    for (d, b) in [(0, 0), (1, 1), (2, 2), (4, 4), (8, 7), (16, 5), (31, 3)] {
        expect(&[sbrc_op(d, b)], &[SBR(ClearBit, d, b)]);
    }
}

#[test]
fn decoder_sbrs() {
    for (d, b) in [(0, 0), (1, 1), (2, 2), (4, 4), (8, 7), (16, 5), (31, 3)] {
        expect(&[sbrs_op(d, b)], &[SBR(SetBit, d, b)]);
    }
}

#[test]
fn sleep() {
    expect(&[0x9588], &[SLEEP]);
}

#[test]
fn decoder_subi() {
    for (d, k) in [
        (16, 0),
        (20, 1),
        (23, 2),
        (24, 4),
        (25, 8),
        (26, 16),
        (27, 32),
        (28, 64),
        (29, 128),
        (31, 255),
    ] {
        expect(&[subi(d, k)], &[SUBI(d, k)]);
    }
}

#[test]
fn swap() {
    for d in [0, 1, 2, 4, 8, 16, 31] {
        expect(&[swap_op(d)], &[SWAP(d)]);
    }
}
