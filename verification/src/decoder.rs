//! The instruction decoder: raw little-endian program bytes to one decoded
//! instruction per 16-bit word.
//!
//! `spec_decode` is the authoritative definition of the decoding; `decode`
//! returns exactly that sequence.  Two-word instructions (CALL, JMP, LDS,
//! STS) occupy their first slot and leave `SecondOpWord` in the second, so
//! the output always has one entry per input word.  A truncated final word
//! becomes `IncompleteOp`; any unrecognized encoding becomes `UnknownOp`.
//! The decoder itself is total: it never rejects its input.

use vstd::prelude::*;

use crate::data::{Instruction, LDMode, LDType, LPMType, SetClear, X, Y, Z};
use crate::util::{bits, bits16, spec_bits16};

verus! {

/// Upper bounds of the bit-field extractions used while decoding.
pub proof fn lemma_bits_bound()
    by (bit_vector)
    ensures
        forall|b: u16, s: u16| #[trigger] spec_bits16(b, s, 1) <= 1,
        forall|b: u16, s: u16| #[trigger] spec_bits16(b, s, 2) <= 3,
        forall|b: u16, s: u16| #[trigger] spec_bits16(b, s, 3) <= 7,
        forall|b: u16, s: u16| #[trigger] spec_bits16(b, s, 4) <= 15,
        forall|b: u16, s: u16| #[trigger] spec_bits16(b, s, 5) <= 31,
        forall|b: u16, s: u16| #[trigger] spec_bits16(b, s, 6) <= 63,
        forall|b: u16, s: u16| #[trigger] spec_bits16(b, s, 8) <= 255,
        forall|b: u16, s: u16| #[trigger] spec_bits16(b, s, 11) <= 2047,
{
}

/// A 16-bit program word from its two bytes, low byte first.
pub open spec fn word_of(lo: u8, hi: u8) -> u16 {
    (lo as u16) | ((hi as u16) << 8)
}

/// Whether `w` opens a two-word instruction (LDS, STS, JMP, CALL).
pub open spec fn spec_is_two_word(w: u16) -> bool {
    spec_bits16(w, 12, 4) == 0b1001 && ((spec_bits16(w, 10, 2) == 0b00 && spec_bits16(w, 0, 4)
        == 0b0000) || (spec_bits16(w, 10, 2) == 0b01 && spec_bits16(w, 9, 1) == 0 && (spec_bits16(
        w,
        1,
        3,
    ) == 0b110 || spec_bits16(w, 1, 3) == 0b111)))
}

/// What a single-word encoding decodes to.  Only consulted for words that
/// are not the first of a two-word instruction.
pub open spec fn spec_decode_one(b: u16) -> Instruction {
    let d5 = (spec_bits16(b, 4, 5)) as u8;
    let r5 = (spec_bits16(b, 9, 1) * 16 + spec_bits16(b, 0, 4)) as u8;
    let d4 = (spec_bits16(b, 4, 4) + 16) as u8;
    let k8 = (spec_bits16(b, 8, 4) * 16 + spec_bits16(b, 0, 4)) as u8;
    match spec_bits16(b, 12, 4) {
        0b0000 => match spec_bits16(b, 10, 2) {
            0b00 => match spec_bits16(b, 8, 2) {
                0b00 => if spec_bits16(b, 0, 8) == 0 {
                    Instruction::NOP
                } else {
                    Instruction::UnknownOp(b)
                },
                0b01 => Instruction::MOVW(
                    (spec_bits16(b, 4, 4) * 2) as u8,
                    (spec_bits16(b, 0, 4) * 2) as u8,
                ),
                _ => Instruction::UnknownOp(b),
            },
            0b01 => Instruction::CPC(d5, r5),
            0b10 => Instruction::SBC(d5, r5),
            _ => Instruction::ADD(d5, r5),
        },
        0b0001 => match spec_bits16(b, 10, 2) {
            0b00 => Instruction::CPSE(d5, r5),
            0b01 => Instruction::CP(d5, r5),
            0b10 => Instruction::SUB(d5, r5),
            _ => Instruction::ADC(d5, r5),
        },
        0b0010 => match spec_bits16(b, 10, 2) {
            0b00 => Instruction::AND(d5, r5),
            0b01 => Instruction::EOR(d5, r5),
            0b10 => Instruction::OR(d5, r5),
            _ => Instruction::MOV(d5, r5),
        },
        0b0011 => Instruction::CPI(d4, k8),
        0b0100 => Instruction::SBCI(d4, k8),
        0b0101 => Instruction::SUBI(d4, k8),
        0b0111 => Instruction::ANDI(d4, k8),
        0b0110 => Instruction::ORI(d4, k8),
        0b1000 => Instruction::LD_ST(
            if spec_bits16(b, 9, 1) == 1 {
                LDType::ST
            } else {
                LDType::LD
            },
            d5,
            if spec_bits16(b, 3, 1) == 1 {
                Y
            } else {
                Z
            },
            LDMode::Displacement((spec_bits16(b, 10, 2) * 8 + spec_bits16(b, 0, 3)) as u8),
        ),
        0b1001 => match spec_bits16(b, 10, 2) {
            0b00 => match spec_bits16(b, 9, 1) {
                0 => match spec_bits16(b, 0, 4) {
                    0b0001 => Instruction::LD_ST(LDType::LD, d5, Z, LDMode::PostIncrement),
                    0b0010 => Instruction::LD_ST(LDType::LD, d5, Z, LDMode::PreDecrement),
                    0b0100 => Instruction::LPM(d5, LPMType::Z),
                    0b0101 => Instruction::LPM(d5, LPMType::ZPostIncrement),
                    0b1001 => Instruction::LD_ST(LDType::LD, d5, Y, LDMode::PostIncrement),
                    0b1010 => Instruction::LD_ST(LDType::LD, d5, Y, LDMode::PreDecrement),
                    0b1100 => Instruction::LD_ST(LDType::LD, d5, X, LDMode::Displacement(0)),
                    0b1101 => Instruction::LD_ST(LDType::LD, d5, X, LDMode::PostIncrement),
                    0b1110 => Instruction::LD_ST(LDType::LD, d5, X, LDMode::PreDecrement),
                    0b1111 => Instruction::POP(d5),
                    _ => Instruction::UnknownOp(b),
                },
                _ => match spec_bits16(b, 0, 4) {
                    0b0001 => Instruction::LD_ST(LDType::ST, d5, Z, LDMode::PostIncrement),
                    0b0010 => Instruction::LD_ST(LDType::ST, d5, Z, LDMode::PreDecrement),
                    0b1001 => Instruction::LD_ST(LDType::ST, d5, Y, LDMode::PostIncrement),
                    0b1010 => Instruction::LD_ST(LDType::ST, d5, Y, LDMode::PreDecrement),
                    0b1100 => Instruction::LD_ST(LDType::ST, d5, X, LDMode::Displacement(0)),
                    0b1101 => Instruction::LD_ST(LDType::ST, d5, X, LDMode::PostIncrement),
                    0b1110 => Instruction::LD_ST(LDType::ST, d5, X, LDMode::PreDecrement),
                    0b1111 => Instruction::PUSH(d5),
                    _ => Instruction::UnknownOp(b),
                },
            },
            0b01 => match spec_bits16(b, 9, 1) {
                0 => match spec_bits16(b, 1, 3) {
                    0b000 => if spec_bits16(b, 0, 1) == 0 {
                        Instruction::COM(d5)
                    } else {
                        Instruction::NEG(d5)
                    },
                    0b001 => if spec_bits16(b, 0, 1) == 0 {
                        Instruction::SWAP(d5)
                    } else {
                        Instruction::INC(d5)
                    },
                    0b010 => if spec_bits16(b, 0, 1) == 1 {
                        Instruction::ASR(d5)
                    } else {
                        Instruction::UnknownOp(b)
                    },
                    0b011 => if spec_bits16(b, 0, 1) == 0 {
                        Instruction::LSR(d5)
                    } else {
                        Instruction::ROR(d5)
                    },
                    0b100 => if spec_bits16(b, 0, 1) == 0 {
                        if spec_bits16(b, 8, 1) == 0 {
                            if spec_bits16(b, 7, 1) == 0 {
                                Instruction::BSET((spec_bits16(b, 4, 3)) as u8)
                            } else {
                                Instruction::BCLR((spec_bits16(b, 4, 3)) as u8)
                            }
                        } else {
                            match spec_bits16(b, 4, 4) {
                                0b0000 => Instruction::RET,
                                0b0001 => Instruction::RETI,
                                0b1000 => Instruction::SLEEP,
                                0b1100 => Instruction::LPM(0, LPMType::Z),
                                _ => Instruction::UnknownOp(b),
                            }
                        }
                    } else {
                        if spec_bits16(b, 4, 5) == 0b10000 {
                            Instruction::ICALL
                        } else {
                            Instruction::UnknownOp(b)
                        }
                    },
                    0b101 => if spec_bits16(b, 0, 1) == 0 {
                        Instruction::DEC(d5)
                    } else {
                        Instruction::UnknownOp(b)
                    },
                    _ => Instruction::UnknownOp(b),
                },
                _ => {
                    let wreg = ((spec_bits16(b, 4, 2) + 12) * 2) as u8;
                    let k6 = (spec_bits16(b, 6, 2) * 16 + spec_bits16(b, 0, 4)) as u8;
                    if spec_bits16(b, 8, 1) == 0 {
                        Instruction::ADIW(wreg, k6)
                    } else {
                        Instruction::SBIW(wreg, k6)
                    }
                },
            },
            0b10 => {
                let a5 = (spec_bits16(b, 3, 5)) as u8;
                let b3 = (spec_bits16(b, 0, 3)) as u8;
                match spec_bits16(b, 8, 2) {
                    0b00 => Instruction::C_SBI(SetClear::ClearBit, a5, b3),
                    0b01 => Instruction::SBIC_S(SetClear::ClearBit, a5, b3),
                    0b10 => Instruction::C_SBI(SetClear::SetBit, a5, b3),
                    _ => Instruction::SBIC_S(SetClear::SetBit, a5, b3),
                }
            },
            _ => Instruction::MUL(d5, r5),
        },
        0b1010 => Instruction::LD_ST(
            if spec_bits16(b, 9, 1) == 1 {
                LDType::ST
            } else {
                LDType::LD
            },
            d5,
            if spec_bits16(b, 3, 1) == 1 {
                Y
            } else {
                Z
            },
            LDMode::Displacement(
                (32 + spec_bits16(b, 10, 2) * 8 + spec_bits16(b, 0, 3)) as u8,
            ),
        ),
        0b1011 => {
            let a6 = (spec_bits16(b, 9, 2) * 16 + spec_bits16(b, 0, 4)) as u8;
            if spec_bits16(b, 11, 1) == 0 {
                Instruction::IN(d5, a6)
            } else {
                Instruction::OUT(d5, a6)
            }
        },
        0b1100 => Instruction::RJMP(
            (1 + spec_bits16(b, 0, 11) - spec_bits16(b, 11, 1) * 2048) as i16,
        ),
        0b1101 => Instruction::RCALL(
            (1 + spec_bits16(b, 0, 11) - spec_bits16(b, 11, 1) * 2048) as i16,
        ),
        0b1110 => Instruction::LDI(d4, k8),
        0b1111 => if spec_bits16(b, 11, 1) == 0 {
            let k7 = (1 + spec_bits16(b, 3, 6) - spec_bits16(b, 9, 1) * 64) as i8;
            Instruction::BRBC_S(
                if spec_bits16(b, 10, 1) == 0 {
                    SetClear::SetBit
                } else {
                    SetClear::ClearBit
                },
                (spec_bits16(b, 0, 3)) as u8,
                k7,
            )
        } else {
            if spec_bits16(b, 3, 1) == 0 {
                let r = d5;
                let b3 = (spec_bits16(b, 0, 3)) as u8;
                match spec_bits16(b, 9, 2) {
                    0b00 => Instruction::BLD_ST(LDType::LD, r, b3),
                    0b01 => Instruction::BLD_ST(LDType::ST, r, b3),
                    0b10 => Instruction::SBR(SetClear::ClearBit, r, b3),
                    _ => Instruction::SBR(SetClear::SetBit, r, b3),
                }
            } else {
                Instruction::UnknownOp(b)
            }
        },
        _ => Instruction::UnknownOp(b),
    }
}

/// What a two-word encoding decodes to, given both words.
pub open spec fn spec_decode_two(b: u16, b2: u16) -> Instruction {
    if spec_bits16(b, 10, 2) == 0b00 {
        Instruction::LD_STS(
            if spec_bits16(b, 9, 1) == 1 {
                LDType::ST
            } else {
                LDType::LD
            },
            (spec_bits16(b, 4, 5)) as u8,
            b2,
        )
    } else {
        let k = ((spec_bits16(b, 4, 5) * 2 + spec_bits16(b, 0, 1)) * 0x10000 + b2) as u32;
        if spec_bits16(b, 1, 3) == 0b110 {
            Instruction::JMP(k)
        } else {
            Instruction::CALL(k)
        }
    }
}

/// The decoded form of a whole byte stream: one instruction per 16-bit word,
/// `SecondOpWord` after each two-word instruction, `IncompleteOp` for a
/// truncated tail.
pub open spec fn spec_decode(bytes: Seq<u8>) -> Seq<Instruction>
    decreases bytes.len(),
{
    if bytes.len() == 0 {
        Seq::empty()
    } else if bytes.len() == 1 {
        seq![Instruction::IncompleteOp(bytes[0] as u32)]
    } else {
        let w = word_of(bytes[0], bytes[1]);
        if spec_is_two_word(w) {
            if bytes.len() == 2 {
                seq![Instruction::IncompleteOp(w as u32)]
            } else if bytes.len() == 3 {
                seq![Instruction::IncompleteOp(((w as u32) << 8) | (bytes[2] as u32))]
            } else {
                seq![
                    spec_decode_two(w, word_of(bytes[2], bytes[3])),
                    Instruction::SecondOpWord,
                ] + spec_decode(bytes.skip(4))
            }
        } else {
            seq![spec_decode_one(w)] + spec_decode(bytes.skip(2))
        }
    }
}

/// The decoded sequence never has more slots than the input has words,
/// so a 32 KiB image fits the 16384-slot instruction cache.
pub proof fn lemma_decode_len(bytes: Seq<u8>)
    ensures
        2 * spec_decode(bytes).len() <= bytes.len() + 1,
    decreases bytes.len(),
{
    if bytes.len() <= 1 {
    } else {
        let w = word_of(bytes[0], bytes[1]);
        if spec_is_two_word(w) {
            if bytes.len() > 3 {
                lemma_decode_len(bytes.skip(4));
            }
        } else {
            lemma_decode_len(bytes.skip(2));
        }
    }
}

/// Whether `w` opens a two-word instruction.
pub fn is_two_word(w: u16) -> (r: bool)
    ensures
        r == spec_is_two_word(w),
{
    bits(w, 12, 4) == 0b1001 && ((bits(w, 10, 2) == 0b00 && bits(w, 0, 4) == 0b0000) || (bits(
        w,
        10,
        2,
    ) == 0b01 && bits(w, 9, 1) == 0 && (bits(w, 1, 3) == 0b110 || bits(w, 1, 3) == 0b111)))
}

/// Decode a single-word instruction.
pub fn decode_one(b: u16) -> (r: Instruction)
    ensures
        r == spec_decode_one(b),
{
    proof {
        lemma_bits_bound();
    }
    let d5 = bits(b, 4, 5);
    let r5 = bits(b, 9, 1) * 16 + bits(b, 0, 4);
    let d4 = bits(b, 4, 4) + 16;
    let k8 = bits(b, 8, 4) * 16 + bits(b, 0, 4);
    match bits(b, 12, 4) {
        0b0000 => match bits(b, 10, 2) {
            0b00 => match bits(b, 8, 2) {
                0b00 => if bits(b, 0, 8) == 0 {
                    Instruction::NOP
                } else {
                    Instruction::UnknownOp(b)
                },
                0b01 => Instruction::MOVW(bits(b, 4, 4) * 2, bits(b, 0, 4) * 2),
                _ => Instruction::UnknownOp(b),
            },
            0b01 => Instruction::CPC(d5, r5),
            0b10 => Instruction::SBC(d5, r5),
            _ => Instruction::ADD(d5, r5),
        },
        0b0001 => match bits(b, 10, 2) {
            0b00 => Instruction::CPSE(d5, r5),
            0b01 => Instruction::CP(d5, r5),
            0b10 => Instruction::SUB(d5, r5),
            _ => Instruction::ADC(d5, r5),
        },
        0b0010 => match bits(b, 10, 2) {
            0b00 => Instruction::AND(d5, r5),
            0b01 => Instruction::EOR(d5, r5),
            0b10 => Instruction::OR(d5, r5),
            _ => Instruction::MOV(d5, r5),
        },
        0b0011 => Instruction::CPI(d4, k8),
        0b0100 => Instruction::SBCI(d4, k8),
        0b0101 => Instruction::SUBI(d4, k8),
        0b0111 => Instruction::ANDI(d4, k8),
        0b0110 => Instruction::ORI(d4, k8),
        0b1000 => Instruction::LD_ST(
            if bits(b, 9, 1) == 1 {
                LDType::ST
            } else {
                LDType::LD
            },
            d5,
            if bits(b, 3, 1) == 1 {
                Y
            } else {
                Z
            },
            LDMode::Displacement(bits(b, 10, 2) * 8 + bits(b, 0, 3)),
        ),
        0b1001 => match bits(b, 10, 2) {
            0b00 => match bits(b, 9, 1) {
                0 => match bits(b, 0, 4) {
                    0b0001 => Instruction::LD_ST(LDType::LD, d5, Z, LDMode::PostIncrement),
                    0b0010 => Instruction::LD_ST(LDType::LD, d5, Z, LDMode::PreDecrement),
                    0b0100 => Instruction::LPM(d5, LPMType::Z),
                    0b0101 => Instruction::LPM(d5, LPMType::ZPostIncrement),
                    0b1001 => Instruction::LD_ST(LDType::LD, d5, Y, LDMode::PostIncrement),
                    0b1010 => Instruction::LD_ST(LDType::LD, d5, Y, LDMode::PreDecrement),
                    0b1100 => Instruction::LD_ST(LDType::LD, d5, X, LDMode::Displacement(0)),
                    0b1101 => Instruction::LD_ST(LDType::LD, d5, X, LDMode::PostIncrement),
                    0b1110 => Instruction::LD_ST(LDType::LD, d5, X, LDMode::PreDecrement),
                    0b1111 => Instruction::POP(d5),
                    _ => Instruction::UnknownOp(b),
                },
                _ => match bits(b, 0, 4) {
                    0b0001 => Instruction::LD_ST(LDType::ST, d5, Z, LDMode::PostIncrement),
                    0b0010 => Instruction::LD_ST(LDType::ST, d5, Z, LDMode::PreDecrement),
                    0b1001 => Instruction::LD_ST(LDType::ST, d5, Y, LDMode::PostIncrement),
                    0b1010 => Instruction::LD_ST(LDType::ST, d5, Y, LDMode::PreDecrement),
                    0b1100 => Instruction::LD_ST(LDType::ST, d5, X, LDMode::Displacement(0)),
                    0b1101 => Instruction::LD_ST(LDType::ST, d5, X, LDMode::PostIncrement),
                    0b1110 => Instruction::LD_ST(LDType::ST, d5, X, LDMode::PreDecrement),
                    0b1111 => Instruction::PUSH(d5),
                    _ => Instruction::UnknownOp(b),
                },
            },
            0b01 => match bits(b, 9, 1) {
                0 => match bits(b, 1, 3) {
                    0b000 => if bits(b, 0, 1) == 0 {
                        Instruction::COM(d5)
                    } else {
                        Instruction::NEG(d5)
                    },
                    0b001 => if bits(b, 0, 1) == 0 {
                        Instruction::SWAP(d5)
                    } else {
                        Instruction::INC(d5)
                    },
                    0b010 => if bits(b, 0, 1) == 1 {
                        Instruction::ASR(d5)
                    } else {
                        Instruction::UnknownOp(b)
                    },
                    0b011 => if bits(b, 0, 1) == 0 {
                        Instruction::LSR(d5)
                    } else {
                        Instruction::ROR(d5)
                    },
                    0b100 => if bits(b, 0, 1) == 0 {
                        if bits(b, 8, 1) == 0 {
                            if bits(b, 7, 1) == 0 {
                                Instruction::BSET(bits(b, 4, 3))
                            } else {
                                Instruction::BCLR(bits(b, 4, 3))
                            }
                        } else {
                            match bits(b, 4, 4) {
                                0b0000 => Instruction::RET,
                                0b0001 => Instruction::RETI,
                                0b1000 => Instruction::SLEEP,
                                0b1100 => Instruction::LPM(0, LPMType::Z),
                                _ => Instruction::UnknownOp(b),
                            }
                        }
                    } else {
                        if bits(b, 4, 5) == 0b10000 {
                            Instruction::ICALL
                        } else {
                            Instruction::UnknownOp(b)
                        }
                    },
                    0b101 => if bits(b, 0, 1) == 0 {
                        Instruction::DEC(d5)
                    } else {
                        Instruction::UnknownOp(b)
                    },
                    _ => Instruction::UnknownOp(b),
                },
                _ => {
                    let wreg = (bits(b, 4, 2) + 12) * 2;
                    let k6 = bits(b, 6, 2) * 16 + bits(b, 0, 4);
                    if bits(b, 8, 1) == 0 {
                        Instruction::ADIW(wreg, k6)
                    } else {
                        Instruction::SBIW(wreg, k6)
                    }
                },
            },
            0b10 => {
                let a5 = bits(b, 3, 5);
                let b3 = bits(b, 0, 3);
                match bits(b, 8, 2) {
                    0b00 => Instruction::C_SBI(SetClear::ClearBit, a5, b3),
                    0b01 => Instruction::SBIC_S(SetClear::ClearBit, a5, b3),
                    0b10 => Instruction::C_SBI(SetClear::SetBit, a5, b3),
                    _ => Instruction::SBIC_S(SetClear::SetBit, a5, b3),
                }
            },
            _ => Instruction::MUL(d5, r5),
        },
        0b1010 => Instruction::LD_ST(
            if bits(b, 9, 1) == 1 {
                LDType::ST
            } else {
                LDType::LD
            },
            d5,
            if bits(b, 3, 1) == 1 {
                Y
            } else {
                Z
            },
            LDMode::Displacement(32 + bits(b, 10, 2) * 8 + bits(b, 0, 3)),
        ),
        0b1011 => {
            let a6 = bits(b, 9, 2) * 16 + bits(b, 0, 4);
            if bits(b, 11, 1) == 0 {
                Instruction::IN(d5, a6)
            } else {
                Instruction::OUT(d5, a6)
            }
        },
        0b1100 => Instruction::RJMP(
            1 + bits16(b, 0, 11) as i16 - bits16(b, 11, 1) as i16 * 2048,
        ),
        0b1101 => Instruction::RCALL(
            1 + bits16(b, 0, 11) as i16 - bits16(b, 11, 1) as i16 * 2048,
        ),
        0b1110 => Instruction::LDI(d4, k8),
        0b1111 => if bits(b, 11, 1) == 0 {
            let k7: i8 = 1 + bits(b, 3, 6) as i8 - bits(b, 9, 1) as i8 * 64;
            Instruction::BRBC_S(
                if bits(b, 10, 1) == 0 {
                    SetClear::SetBit
                } else {
                    SetClear::ClearBit
                },
                bits(b, 0, 3),
                k7,
            )
        } else {
            if bits(b, 3, 1) == 0 {
                let b3 = bits(b, 0, 3);
                match bits(b, 9, 2) {
                    0b00 => Instruction::BLD_ST(LDType::LD, d5, b3),
                    0b01 => Instruction::BLD_ST(LDType::ST, d5, b3),
                    0b10 => Instruction::SBR(SetClear::ClearBit, d5, b3),
                    _ => Instruction::SBR(SetClear::SetBit, d5, b3),
                }
            } else {
                Instruction::UnknownOp(b)
            }
        },
        _ => Instruction::UnknownOp(b),
    }
}

/// Decode a two-word instruction from both of its words.
pub fn decode_two(b: u16, b2: u16) -> (r: Instruction)
    ensures
        r == spec_decode_two(b, b2),
{
    proof {
        lemma_bits_bound();
    }
    if bits(b, 10, 2) == 0b00 {
        Instruction::LD_STS(
            if bits(b, 9, 1) == 1 {
                LDType::ST
            } else {
                LDType::LD
            },
            bits(b, 4, 5),
            b2,
        )
    } else {
        let k: u32 = ((bits(b, 4, 5) * 2 + bits(b, 0, 1)) as u32) * 0x10000 + (b2 as u32);
        if bits(b, 1, 3) == 0b110 {
            Instruction::JMP(k)
        } else {
            Instruction::CALL(k)
        }
    }
}

/// A decoded program, handed out one instruction at a time.
pub struct DecodedIterator {
    /// The decoded instructions, one per input word.
    pub items: Vec<Instruction>,
    /// How many have been handed out so far.
    pub pos: usize,
}

impl DecodedIterator {
    /// The next decoded instruction, if any are left.
    pub fn next(&mut self) -> (r: Option<Instruction>)
        ensures
            final(self).items == old(self).items,
            old(self).pos < old(self).items@.len() ==> r == Some(
                old(self).items@[old(self).pos as int],
            ) && final(self).pos == old(self).pos + 1,
            old(self).pos >= old(self).items@.len() ==> r is None && final(self).pos == old(
                self,
            ).pos,
    {
        if self.pos < self.items.len() {
            let i = self.items[self.pos];
            self.pos = self.pos + 1;
            Some(i)
        } else {
            None
        }
    }
}

/// Decode a whole byte stream.  The result hands out exactly
/// `spec_decode(image@)`, in order.
pub fn decode(image: &[u8]) -> (r: DecodedIterator)
    ensures
        r.items@ == spec_decode(image@),
        r.pos == 0,
{
    let n = image.len();
    let mut out: Vec<Instruction> = Vec::new();
    let mut pos: usize = 0;
    proof {
        assert(image@.skip(0) =~= image@);
        assert(out@ + spec_decode(image@) =~= spec_decode(image@));
    }
    while pos < n
        invariant
            pos <= n,
            n == image@.len(),
            out@ + spec_decode(image@.skip(pos as int)) == spec_decode(image@),
        decreases n - pos,
    {
        let ghost rest = image@.skip(pos as int);
        if pos + 1 == n {
            out.push(Instruction::IncompleteOp(image[pos] as u32));
            proof {
                assert(rest =~= seq![image@[pos as int]]);
                assert(out@ =~= spec_decode(image@));
            }
            pos = pos + 1;
        } else {
            let w = (image[pos] as u16) | ((image[pos + 1] as u16) << 8);
            assert(w == word_of(rest[0], rest[1]));
            if is_two_word(w) {
                if pos + 2 == n {
                    out.push(Instruction::IncompleteOp(w as u32));
                    proof {
                        assert(rest.len() == 2);
                        assert(out@ =~= spec_decode(image@));
                    }
                    pos = pos + 2;
                } else if pos + 3 == n {
                    out.push(Instruction::IncompleteOp(((w as u32) << 8) | (image[pos + 2] as u32)));
                    proof {
                        assert(rest.len() == 3);
                        assert(rest[2] == image@[pos + 2]);
                        assert(out@ =~= spec_decode(image@));
                    }
                    pos = pos + 3;
                } else {
                    let w2 = (image[pos + 2] as u16) | ((image[pos + 3] as u16) << 8);
                    out.push(decode_two(w, w2));
                    out.push(Instruction::SecondOpWord);
                    proof {
                        assert(rest[2] == image@[pos + 2] && rest[3] == image@[pos + 3]);
                        assert(rest.skip(4) =~= image@.skip(pos + 4));
                        assert(out@ + spec_decode(image@.skip(pos + 4)) =~= spec_decode(image@));
                    }
                    pos = pos + 4;
                }
            } else {
                out.push(decode_one(w));
                proof {
                    assert(rest.skip(2) =~= image@.skip(pos + 2));
                    assert(out@ + spec_decode(image@.skip(pos + 2)) =~= spec_decode(image@));
                }
                pos = pos + 2;
            }
        }
    }
    proof {
        assert(image@.skip(n as int) =~= Seq::<u8>::empty());
        assert(out@ =~= spec_decode(image@));
    }
    DecodedIterator { items: out, pos: 0 }
}

} // verus!
