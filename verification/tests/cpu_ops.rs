//! Instruction-semantics tests: each runs a small machine-code program with
//! halt-on-NOP, then checks registers and SREG.

use avr_core::cpu::Cpu;
use avr_core::memory::Memory;

fn words_to_bytes(words: &[u16]) -> Vec<u8> {
    let mut bytes = Vec::new();
    for w in words {
        bytes.push((*w & 0xff) as u8);
        bytes.push((*w >> 8) as u8);
    }
    bytes
}

fn run(words: &[u16], init: &[(u8, u8)]) -> Cpu {
    let bytes = words_to_bytes(words);
    let mem = Memory::new(&bytes, None);
    let mut cpu = Cpu::new(mem, true);
    for (r, v) in init {
        cpu.set_reg(*r, *v);
    }
    while cpu.step() {}
    assert!(cpu.fault().is_none());
    cpu
}

fn chk(words: &[u16], init: &[(u8, u8)], expect: &[(u8, u8)], flags: u8) {
    let cpu = run(words, init);
    for (r, v) in expect {
        assert_eq!(cpu.reg(*r), *v, "register {}", r);
    }
    assert_eq!(cpu.flags(), flags, "flags {:#b}", cpu.flags());
}

// Encoders for the opcodes the tests use.
fn op2(base: u16, d: u8, r: u8) -> u16 {
    base | (((r as u16) & 0x10) << 5) | ((d as u16) << 4) | ((r as u16) & 0xf)
}
fn add(d: u8, r: u8) -> u16 {
    op2(0x0C00, d, r)
}
fn adc(d: u8, r: u8) -> u16 {
    op2(0x1C00, d, r)
}
fn sub(d: u8, r: u8) -> u16 {
    op2(0x1800, d, r)
}
fn sbc(d: u8, r: u8) -> u16 {
    op2(0x0800, d, r)
}
fn and(d: u8, r: u8) -> u16 {
    op2(0x2000, d, r)
}
fn or(d: u8, r: u8) -> u16 {
    op2(0x2800, d, r)
}
fn eor(d: u8, r: u8) -> u16 {
    op2(0x2400, d, r)
}
fn cp(d: u8, r: u8) -> u16 {
    op2(0x1400, d, r)
}
fn cpc(d: u8, r: u8) -> u16 {
    op2(0x0400, d, r)
}
fn cpse(d: u8, r: u8) -> u16 {
    op2(0x1000, d, r)
}
fn mov(d: u8, r: u8) -> u16 {
    op2(0x2C00, d, r)
}
fn mul(d: u8, r: u8) -> u16 {
    op2(0x9C00, d, r)
}
fn movw(d: u8, r: u8) -> u16 {
    0x0100 | (((d as u16) >> 1) << 4) | ((r as u16) >> 1)
}
fn imm8(base: u16, d: u8, k: u8) -> u16 {
    base | (((k as u16) & 0xf0) << 4) | ((((d as u16) - 16) & 0xf) << 4) | ((k as u16) & 0xf)
}
fn cpi(d: u8, k: u8) -> u16 {
    imm8(0x3000, d, k)
}
fn sbci(d: u8, k: u8) -> u16 {
    imm8(0x4000, d, k)
}
fn subi(d: u8, k: u8) -> u16 {
    imm8(0x5000, d, k)
}
fn ori(d: u8, k: u8) -> u16 {
    imm8(0x6000, d, k)
}
fn andi(d: u8, k: u8) -> u16 {
    imm8(0x7000, d, k)
}
fn ldi(d: u8, k: u8) -> u16 {
    imm8(0xE000, d, k)
}
fn one_op(base: u16, low: u16, d: u8) -> u16 {
    base | ((d as u16) << 4) | low
}
fn com(d: u8) -> u16 {
    one_op(0x9400, 0, d)
}
fn neg(d: u8) -> u16 {
    one_op(0x9400, 1, d)
}
fn asr(d: u8) -> u16 {
    one_op(0x9400, 5, d)
}
fn lsr(d: u8) -> u16 {
    one_op(0x9400, 6, d)
}
fn ror(d: u8) -> u16 {
    one_op(0x9400, 7, d)
}
fn dec(d: u8) -> u16 {
    one_op(0x9400, 0xA, d)
}
fn bset(s: u8) -> u16 {
    0x9408 | ((s as u16) << 4)
}
fn bclr(s: u8) -> u16 {
    0x9488 | ((s as u16) << 4)
}
fn nop() -> u16 {
    0
}
fn ret() -> u16 {
    0x9508
}
fn reti() -> u16 {
    0x9518
}
fn icall() -> u16 {
    0x9509
}
fn adiw(p: u8, k: u8) -> u16 {
    0x9600 | (((k as u16) & 0x30) << 2) | (((((p as u16) - 24) / 2) & 3) << 4) | ((k as u16) & 0xf)
}
fn sbiw(p: u8, k: u8) -> u16 {
    0x9700 | (((k as u16) & 0x30) << 2) | (((((p as u16) - 24) / 2) & 3) << 4) | ((k as u16) & 0xf)
}
fn cbi(a: u8, b: u8) -> u16 {
    0x9800 | ((a as u16) << 3) | (b as u16)
}
fn sbic(a: u8, b: u8) -> u16 {
    0x9900 | ((a as u16) << 3) | (b as u16)
}
fn sbi(a: u8, b: u8) -> u16 {
    0x9A00 | ((a as u16) << 3) | (b as u16)
}
fn sbis(a: u8, b: u8) -> u16 {
    0x9B00 | ((a as u16) << 3) | (b as u16)
}
fn inn(d: u8, a: u8) -> u16 {
    0xB000 | (((a as u16) & 0x30) << 5) | ((d as u16) << 4) | ((a as u16) & 0xf)
}
fn out_op(a: u8, r: u8) -> u16 {
    0xB800 | (((a as u16) & 0x30) << 5) | ((r as u16) << 4) | ((a as u16) & 0xf)
}
// Branches take the decoder-normalized offset k (target - pc); the raw
// 7-bit field holds k - 1.
fn brbs(s: u8, k: i16) -> u16 {
    0xF000 | ((((k - 1) as u16) & 0x7f) << 3) | (s as u16)
}
fn brbc(s: u8, k: i16) -> u16 {
    0xF400 | ((((k - 1) as u16) & 0x7f) << 3) | (s as u16)
}
fn bld(d: u8, b: u8) -> u16 {
    0xF800 | ((d as u16) << 4) | (b as u16)
}
fn bst(d: u8, b: u8) -> u16 {
    0xFA00 | ((d as u16) << 4) | (b as u16)
}
fn sbrc(d: u8, b: u8) -> u16 {
    0xFC00 | ((d as u16) << 4) | (b as u16)
}
fn sbrs(d: u8, b: u8) -> u16 {
    0xFE00 | ((d as u16) << 4) | (b as u16)
}
fn jmp(k: u32) -> [u16; 2] {
    let hi = (k >> 16) as u16;
    [0x940C | ((hi >> 1) << 4) | (hi & 1), (k & 0xffff) as u16]
}
fn call(k: u32) -> [u16; 2] {
    let hi = (k >> 16) as u16;
    [0x940E | ((hi >> 1) << 4) | (hi & 1), (k & 0xffff) as u16]
}
fn rjmp(k: i16) -> u16 {
    0xC000 | (((k - 1) as u16) & 0xfff)
}
fn rcall(k: i16) -> u16 {
    0xD000 | (((k - 1) as u16) & 0xfff)
}
// LD/ST through X/Y/Z with the 0x9000 family low nibbles.
fn ld9(d: u8, low: u16) -> u16 {
    0x9000 | ((d as u16) << 4) | low
}
fn st9(r: u8, low: u16) -> u16 {
    0x9200 | ((r as u16) << 4) | low
}
fn lds(d: u8, k: u16) -> [u16; 2] {
    [0x9000 | ((d as u16) << 4), k]
}
fn sts(k: u16, r: u8) -> [u16; 2] {
    [0x9200 | ((r as u16) << 4), k]
}
fn lpm_zinc(d: u8) -> u16 {
    0x9005 | ((d as u16) << 4)
}
fn push(r: u8) -> u16 {
    0x920F | ((r as u16) << 4)
}
fn pop(d: u8) -> u16 {
    0x900F | ((d as u16) << 4)
}
// Displacement loads/stores (LDD/STD through Y or Z).
fn ldd(d: u8, use_y: bool, q: u8) -> u16 {
    let base: u16 = if q >= 32 { 0xA000 } else { 0x8000 };
    base | (((q as u16) & 0x18) << 7) | ((d as u16) << 4) | if use_y { 8 } else { 0 } | ((q
        as u16) & 7)
}
fn std_q(r: u8, use_y: bool, q: u8) -> u16 {
    ldd(r, use_y, q) | 0x0200
}

#[test]
fn cpu_adc() {
    chk(
        &[add(0, 2), adc(1, 3)],
        &[(0, 255), (1, 255), (2, 255), (3, 254)],
        &[(0, 254), (1, 254)],
        0b00110101,
    );
}

#[test]
fn cpu_add() {
    chk(&[add(0, 1)], &[(0, 10), (1, 7)], &[(0, 17), (1, 7)], 0b00100000);
    chk(&[add(0, 1)], &[(0, 128), (1, 128)], &[(0, 0), (1, 128)], 0b00011011);
    chk(&[add(0, 1)], &[(0, 255), (1, 255)], &[(0, 254), (1, 255)], 0b00110101);
    chk(&[add(0, 1)], &[(0, 127), (1, 127)], &[(0, 254), (1, 127)], 0b00101100);
}

#[test]
fn cpu_adiw() {
    chk(&[adiw(24, 63)], &[(24, 247), (25, 255)], &[(24, 54), (25, 0)], 0b00000001);
    chk(&[adiw(24, 63)], &[(24, 255), (25, 127)], &[(24, 62), (25, 128)], 0b00001100);
}

#[test]
fn cpu_and() {
    chk(
        &[and(0, 1)],
        &[(0, 0b10101010), (1, 0b10001111)],
        &[(0, 0b10001010), (1, 0b10001111)],
        0b00010100,
    );
    chk(&[and(0, 1)], &[(0, 0b11110000), (1, 0b00001111)], &[(0, 0), (1, 0b00001111)], 0b00000010);
}

#[test]
fn cpu_andi() {
    chk(&[andi(16, 143)], &[(16, 0b10101010)], &[(16, 0b10001010)], 0b00010100);
    chk(&[andi(16, 15)], &[(16, 0b11110000)], &[(16, 0)], 0b00000010);
}

#[test]
fn cpu_asr() {
    chk(&[asr(0)], &[(0, (-2i8) as u8)], &[(0, (-1i8) as u8)], 0b00001100);
    chk(&[asr(0)], &[(0, 0b10000101)], &[(0, 0b11000010)], 0b00010101);
}

#[test]
fn cpu_bclr() {
    chk(&[out_op(0x3f, 0), bclr(4)], &[(0, 0xff)], &[(0, 0xff)], 0b11101111);
    chk(&[bset(3), bclr(4)], &[(0, 1)], &[(0, 1)], 0b00001000);
}

#[test]
fn cpu_bld() {
    chk(&[bst(0, 0), bld(1, 1)], &[(0, 1), (1, 1)], &[(0, 1), (1, 3)], 0b01000000);
}

#[test]
fn cpu_bst() {
    chk(&[bst(0, 0)], &[(0, 1)], &[(0, 1)], 0b01000000);
}

#[test]
fn cpu_bset() {
    chk(&[bset(3)], &[(0, 1)], &[(0, 1)], 0b00001000);
}

#[test]
fn cpu_brbc() {
    chk(
        &[add(0, 0), brbc(0, 2), add(0, 1), add(0, 2)],
        &[(0, 0), (1, 1), (2, 2)],
        &[(0, 2)],
        0,
    );
}

#[test]
fn cpu_brbs() {
    chk(
        &[add(5, 5), brbs(0, 2), add(0, 1), add(0, 2)],
        &[(0, 0), (1, 1), (2, 2), (5, 255)],
        &[(0, 2)],
        0,
    );
}

#[test]
fn cpu_call() {
    let c = call(5);
    chk(
        &[out_op(0x3e, 5), out_op(0x3d, 6), c[0], c[1], add(0, 1), add(0, 2)],
        &[(0, 0), (1, 1), (2, 2), (5, 0x8), (6, 0x0)],
        &[(0, 2)],
        0,
    );
}

#[test]
fn cpu_cbi() {
    chk(
        &[out_op(30, 0), cbi(30, 2), inn(1, 30)],
        &[(0, 0xff)],
        &[(0, 0xff), (1, 0b11111011)],
        0,
    );
}

#[test]
fn cpu_com() {
    chk(&[com(0)], &[(0, 0)], &[(0, 0xff)], 0b00010101);
    chk(&[com(0)], &[(0, 0xff)], &[(0, 0x0)], 0b00000011);
    chk(&[com(0)], &[(0, 0b11001010)], &[(0, 0b00110101)], 0b00000001);
}

#[test]
fn cpu_cp() {
    chk(&[cp(16, 17)], &[(16, 0), (17, 127)], &[(16, 0)], 0b00110101);
    chk(&[cp(16, 17)], &[(16, 255), (17, 127)], &[(16, 255)], 0b00010100);
    chk(&[cp(16, 17)], &[(16, 1), (17, 128)], &[(16, 1)], 0b00001101);
}

#[test]
fn cpu_cpc() {
    chk(
        &[cpi(28, 128), cpc(29, 28)],
        &[(28, 0), (29, 0)],
        &[(28, 0), (29, 0)],
        0b00110101,
    );
}

#[test]
fn cpu_cpi() {
    chk(&[cpi(28, 128)], &[(28, 0)], &[(28, 0)], 0b00001101);
}

#[test]
fn cpu_cpse() {
    chk(
        &[cpse(0, 1), add(2, 3), add(2, 3)],
        &[(0, 0), (1, 1), (2, 0), (3, 1)],
        &[(2, 2)],
        0,
    );
    chk(
        &[cpse(0, 1), add(2, 3), add(2, 3)],
        &[(0, 0), (1, 0), (2, 0), (3, 1)],
        &[(2, 1)],
        0,
    );
    let c = call(0);
    chk(
        &[cpse(0, 1), c[0], c[1], add(2, 3)],
        &[(0, 1), (1, 1), (2, 0), (3, 1)],
        &[(2, 1)],
        0,
    );
}

#[test]
fn cpu_dec() {
    chk(&[dec(0)], &[(0, 0)], &[(0, 255)], 0b00010100);
    chk(&[dec(0)], &[(0, 0x80)], &[(0, 0x7f)], 0b00011000);
    chk(&[dec(0)], &[(0, 1)], &[(0, 0)], 0b00000010);
}

#[test]
fn cpu_eor() {
    chk(&[eor(28, 29)], &[(28, 123), (29, 123)], &[(28, 0), (29, 123)], 0b00000010);
    chk(
        &[eor(28, 29)],
        &[(28, 0b10101010), (29, 0b1111)],
        &[(28, 0b10100101), (29, 0b1111)],
        0b00010100,
    );
}

#[test]
fn cpu_icall() {
    chk(
        &[out_op(0x3e, 5), out_op(0x3d, 6), icall(), add(0, 1), add(0, 2)],
        &[(0, 0), (1, 1), (2, 2), (5, 0x8), (6, 0x0), (30, 4), (31, 0)],
        &[(0, 2)],
        0,
    );
}

#[test]
fn cpu_in_() {
    chk(&[eor(1, 1), inn(0, 0x3f)], &[(0, 0xff)], &[(0, 0b10)], 0b10);
    chk(&[out_op(0x10, 1), inn(0, 0x10)], &[(0, 0), (1, 1)], &[(0, 1)], 0);
}

#[test]
fn cpu_jmp() {
    let j = jmp(4);
    chk(
        &[add(0, 0), j[0], j[1], add(0, 1), add(0, 2)],
        &[(0, 0), (1, 1), (2, 2)],
        &[(0, 2)],
        0,
    );
}

#[test]
fn ld() {
    chk(
        &[ld9(0, 9)],
        &[(0, 0), (1, 1), (28, 0x1), (29, 0)],
        &[(0, 1), (1, 1), (28, 0x2), (29, 0)],
        0,
    );
    chk(
        &[ld9(0, 14)],
        &[(0, 0), (8, 1), (26, 0x9), (27, 0)],
        &[(0, 1), (8, 1), (26, 0x8), (27, 0)],
        0,
    );
    chk(
        &[eor(1, 1), ldd(0, false, 63)],
        &[(30, 0x20), (31, 0)],
        &[(0, 0x2), (30, 0x20), (31, 0)],
        0b10,
    );
}

#[test]
fn cpu_ldi() {
    chk(&[ldi(28, 128)], &[(28, 1)], &[(28, 128)], 0);
}

#[test]
fn cpu_lds() {
    let l = lds(0, 1);
    chk(&[l[0], l[1]], &[(0, 0), (1, 1)], &[(0, 1)], 0);
}

#[test]
fn cpu_lpm() {
    chk(
        &[lpm_zinc(28)],
        &[(30, 1), (31, 0)],
        &[(30, 2), (31, 0), (28, 145)],
        0,
    );
}

#[test]
fn lsl() {
    chk(&[add(0, 0)], &[(0, 0b11001011)], &[(0, 0b10010110)], 0b00110101);
}

#[test]
fn cpu_lsr() {
    chk(&[lsr(0)], &[(0, 0b101)], &[(0, 0b10)], 0b00011001);
}

#[test]
fn cpu_mov() {
    chk(&[mov(0, 1)], &[(1, 0x12)], &[(0, 0x12), (1, 0x12)], 0);
}

#[test]
fn cpu_movw() {
    chk(
        &[movw(0, 2)],
        &[(2, 0x12), (3, 0x34)],
        &[(0, 0x12), (1, 0x34), (2, 0x12), (3, 0x34)],
        0,
    );
}

#[test]
fn cpu_mul() {
    chk(&[mul(1, 2)], &[(1, 0xff), (2, 0xff)], &[(0, 0x01), (1, 0xfe)], 0b00000001);
    chk(&[mul(1, 2)], &[(1, 3), (2, 0)], &[(0, 0), (1, 0)], 0b00000010);
    chk(&[mul(1, 2)], &[(1, 123), (2, 4)], &[(0, 236), (1, 1)], 0b00000000);
}

#[test]
fn cpu_neg() {
    chk(&[neg(0)], &[(0, 0)], &[(0, 0)], 0b00100010);
    chk(&[neg(0)], &[(0, 255)], &[(0, 1)], 0b00000001);
    chk(&[neg(0)], &[(0, 0x80)], &[(0, 0x80)], 0b00101101);
    chk(&[neg(0)], &[(0, 1)], &[(0, 255)], 0b00110101);
}

#[test]
fn out() {
    chk(&[out_op(0x3f, 0)], &[(0, 0xff)], &[(0, 0xff)], 0xff);
}

#[test]
fn cpu_or() {
    chk(
        &[or(0, 1)],
        &[(0, 0b10101010), (1, 0b10001111)],
        &[(0, 0b10101111), (1, 0b10001111)],
        0b00010100,
    );
    chk(&[or(0, 1)], &[(0, 0), (1, 0)], &[(0, 0), (1, 0)], 0b00000010);
}

#[test]
fn cpu_ori() {
    chk(&[ori(16, 143)], &[(16, 0b10101010)], &[(16, 0b10101111)], 0b00010100);
    chk(&[ori(16, 0)], &[(16, 0)], &[(16, 0)], 0b00000010);
}

#[test]
fn cpu_pop() {
    chk(
        &[out_op(0x3e, 5), out_op(0x3d, 6), st9(1, 12), pop(0)],
        &[(0, 0), (1, 1), (5, 0x8), (6, 0x0), (26, 1), (27, 8)],
        &[(0, 1)],
        0,
    );
}

#[test]
fn cpu_push() {
    chk(
        &[out_op(0x3e, 5), out_op(0x3d, 6), push(1), pop(0)],
        &[(0, 0), (1, 1), (5, 0x8), (6, 0x0)],
        &[(0, 1)],
        0,
    );
}

#[test]
fn cpu_rcall() {
    chk(
        &[out_op(0x3e, 5), out_op(0x3d, 6), rcall(2), add(0, 1), add(0, 2)],
        &[(0, 0), (1, 1), (2, 2), (5, 0x8), (6, 0x0)],
        &[(0, 2)],
        0,
    );
}

#[test]
fn cpu_ret() {
    let c = call(6);
    chk(
        &[out_op(0x3e, 5), out_op(0x3d, 6), c[0], c[1], mov(0, 1), nop(), ret()],
        &[(0, 0), (1, 1), (5, 0x8), (6, 0x0)],
        &[(0, 1)],
        0,
    );
    chk(
        &[out_op(0x3e, 5), out_op(0x3d, 6), rcall(3), mov(0, 1), nop(), ret()],
        &[(0, 0), (1, 1), (5, 0x8), (6, 0x0)],
        &[(0, 1)],
        0,
    );
    chk(
        &[out_op(0x3e, 5), out_op(0x3d, 6), icall(), mov(0, 1), nop(), ret()],
        &[(0, 0), (1, 1), (5, 0x8), (6, 0x0), (30, 5), (31, 0)],
        &[(0, 1)],
        0,
    );
}

#[test]
fn cpu_reti() {
    let c = call(6);
    chk(
        &[out_op(0x3e, 5), out_op(0x3d, 6), c[0], c[1], mov(0, 1), nop(), reti()],
        &[(0, 0), (1, 1), (5, 0x8), (6, 0x0)],
        &[(0, 1)],
        0b10000000,
    );
    chk(
        &[out_op(0x3e, 5), out_op(0x3d, 6), rcall(3), mov(0, 1), nop(), reti()],
        &[(0, 0), (1, 1), (5, 0x8), (6, 0x0)],
        &[(0, 1)],
        0b10000000,
    );
}

#[test]
fn cpu_rjmp() {
    chk(
        &[add(0, 0), rjmp(2), add(0, 1), add(0, 2)],
        &[(0, 0), (1, 1), (2, 2)],
        &[(0, 2)],
        0,
    );
}

#[test]
fn cpu_ror() {
    chk(
        &[out_op(0x3f, 1), ror(0)],
        &[(0, 0b01010001), (1, 1)],
        &[(0, 0b10101000)],
        0b00010101,
    );
}

#[test]
fn rol() {
    chk(
        &[out_op(0x3f, 1), adc(0, 0)],
        &[(0, 0b10011001), (1, 1)],
        &[(0, 0b00110011)],
        0b00111001,
    );
}

#[test]
fn st() {
    chk(
        &[st9(0, 9)],
        &[(0, 1), (28, 0x1), (29, 0)],
        &[(0, 1), (1, 1), (28, 0x2), (29, 0)],
        0,
    );
    chk(
        &[st9(0, 14)],
        &[(0, 1), (26, 0x9), (27, 0)],
        &[(0, 1), (8, 1), (26, 0x8), (27, 0)],
        0,
    );
    chk(
        &[std_q(0, false, 63)],
        &[(0, 0xff), (30, 0x20), (31, 0)],
        &[(0, 0xff), (30, 0x20), (31, 0)],
        0xff,
    );
}

#[test]
fn cpu_sts() {
    let s = sts(1, 0);
    chk(&[s[0], s[1]], &[(0, 1), (1, 0)], &[(1, 1)], 0);
}

#[test]
fn cpu_sbc() {
    chk(
        &[subi(16, 255), sbc(17, 18)],
        &[(16, 255), (17, 255), (18, 255)],
        &[(16, 0), (17, 0)],
        0b00000010,
    );
    chk(
        &[subi(16, 255), sbc(17, 18)],
        &[(16, 0), (17, 255), (18, 254)],
        &[(16, 1), (17, 0)],
        0b00000000,
    );
    chk(
        &[subi(16, 255), sbc(17, 18)],
        &[(16, 0), (17, 0), (18, 255)],
        &[(16, 1), (17, 0)],
        0b00100001,
    );
}

#[test]
fn cpu_sbci() {
    chk(
        &[subi(16, 255), sbci(17, 255)],
        &[(16, 255), (17, 255)],
        &[(16, 0), (17, 0)],
        0b00000010,
    );
    chk(
        &[subi(16, 255), sbci(17, 254)],
        &[(16, 0), (17, 255)],
        &[(16, 1), (17, 0)],
        0b00000000,
    );
    chk(
        &[subi(16, 255), sbci(17, 255)],
        &[(16, 0), (17, 0)],
        &[(16, 1), (17, 0)],
        0b00100001,
    );
}

#[test]
fn cpu_sbi() {
    chk(&[sbi(30, 2), inn(0, 30)], &[(0, 0)], &[(0, 0b00000100)], 0);
}

#[test]
fn cpu_sbic() {
    chk(
        &[out_op(30, 0), sbic(30, 1), add(1, 2), add(1, 2)],
        &[(0, 1), (1, 0), (2, 1)],
        &[(1, 1)],
        0,
    );
    let c = call(1);
    chk(
        &[out_op(30, 0), sbic(30, 1), c[0], c[1], add(1, 2)],
        &[(0, 0), (1, 0), (2, 1)],
        &[(1, 1)],
        0,
    );
    chk(
        &[out_op(30, 0), sbic(30, 1), add(1, 2), add(1, 2)],
        &[(0, 2), (1, 0), (2, 1)],
        &[(1, 2)],
        0,
    );
}

#[test]
fn cpu_sbis() {
    chk(
        &[out_op(30, 0), sbis(30, 1), add(1, 2), add(1, 2)],
        &[(0, 1), (1, 0), (2, 1)],
        &[(1, 2)],
        0,
    );
    let c = call(1);
    chk(
        &[out_op(30, 0), sbis(30, 1), c[0], c[1], add(1, 2)],
        &[(0, 2), (1, 0), (2, 1)],
        &[(1, 1)],
        0,
    );
    chk(
        &[out_op(30, 0), sbis(30, 1), add(1, 2), add(1, 2)],
        &[(0, 2), (1, 0), (2, 1)],
        &[(1, 1)],
        0,
    );
}

#[test]
fn cpu_sbiw() {
    chk(&[sbiw(24, 1)], &[(24, 0)], &[(24, 255)], 0b00010101);
}

#[test]
fn cpu_sbrc() {
    chk(
        &[sbrc(0, 1), add(1, 2), add(1, 2)],
        &[(0, 0), (1, 0), (2, 1)],
        &[(1, 1)],
        0,
    );
    let c = call(0);
    chk(
        &[sbrc(0, 1), c[0], c[1], add(1, 2)],
        &[(0, 0), (1, 0), (2, 1)],
        &[(1, 1)],
        0,
    );
    chk(
        &[sbrc(0, 1), add(1, 2), add(1, 2)],
        &[(0, 2), (1, 0), (2, 1)],
        &[(1, 2)],
        0,
    );
}

#[test]
fn cpu_sbrs() {
    chk(
        &[sbrs(0, 1), add(1, 2), add(1, 2)],
        &[(0, 0), (1, 0), (2, 1)],
        &[(1, 2)],
        0,
    );
    chk(
        &[sbrs(0, 1), add(1, 2), add(1, 2)],
        &[(0, 2), (1, 0), (2, 1)],
        &[(1, 1)],
        0,
    );
}

#[test]
fn cpu_sub() {
    chk(&[sub(16, 17)], &[(16, 0), (17, 127)], &[(16, 129)], 0b00110101);
    chk(&[sub(16, 17)], &[(16, 255), (17, 127)], &[(16, 128)], 0b00010100);
    chk(&[sub(16, 17)], &[(16, 1), (17, 128)], &[(16, 129)], 0b00001101);
}

#[test]
fn cpu_subi() {
    chk(&[subi(16, 127)], &[(16, 0)], &[(16, 129)], 0b00110101);
    chk(&[subi(16, 127)], &[(16, 255)], &[(16, 128)], 0b00010100);
    chk(&[subi(16, 128)], &[(16, 1)], &[(16, 129)], 0b00001101);
}
