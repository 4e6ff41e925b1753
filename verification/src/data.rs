//! The decoded instruction set and the faults that stop execution.

use vstd::prelude::*;

verus! {

/// A register by index.  Range: 0-31.
pub type Register = u8;

/// An index into the status register.  Range: 0-7.
pub type SREG = u8;

/// Low register of the X pair (r27:r26).
pub const X: Register = 26;

/// Low register of the Y pair (r29:r28).
pub const Y: Register = 28;

/// Low register of the Z pair (r31:r30).
pub const Z: Register = 30;

/// One decoded program word.
///
/// `SecondOpWord` fills the slot after every two-word instruction so that the
/// decoded sequence keeps one entry per 16-bit program word.  `UnknownOp`
/// carries an unrecognized encoding; `IncompleteOp` carries the raw bits of a
/// truncated final word.
#[derive(Debug, Eq, PartialEq, Copy, Clone, Structural)]
#[allow(non_camel_case_types)]
pub enum Instruction {
    UnknownOp(u16),
    IncompleteOp(u32),
    SecondOpWord,
    ADC(Register, Register),
    ADD(Register, Register),
    ADIW(Register, u8),
    AND(Register, Register),
    ANDI(Register, u8),
    ASR(Register),
    BCLR(SREG),
    BLD_ST(LDType, Register, u8),
    BRBC_S(SetClear, SREG, i8),
    BSET(SREG),
    CALL(u32),
    C_SBI(SetClear, u8, u8),
    COM(Register),
    CP(Register, Register),
    CPC(Register, Register),
    CPI(Register, u8),
    CPSE(Register, Register),
    DEC(Register),
    EOR(Register, Register),
    ICALL,
    IN(Register, u8),
    INC(Register),
    JMP(u32),
    LD_ST(LDType, Register, Register, LDMode),
    LD_STS(LDType, Register, u16),
    LDI(Register, u8),
    LPM(Register, LPMType),
    LSR(Register),
    MOV(Register, Register),
    MOVW(Register, Register),
    MUL(Register, Register),
    NEG(Register),
    NOP,
    OR(Register, Register),
    ORI(Register, u8),
    OUT(Register, u8),
    POP(Register),
    PUSH(Register),
    RCALL(i16),
    RET,
    RETI,
    RJMP(i16),
    ROR(Register),
    SBC(Register, Register),
    SBCI(Register, u8),
    SBIC_S(SetClear, u8, u8),
    SBIW(Register, u8),
    SBR(SetClear, Register, u8),
    SLEEP,
    SUB(Register, Register),
    SUBI(Register, u8),
    SWAP(Register),
}

/// Addressing mode of an indirect load or store.
#[derive(Debug, Eq, PartialEq, Copy, Clone, Structural)]
pub enum LDMode {
    PostIncrement,
    PreDecrement,
    Displacement(u8),
}

impl LDMode {
    /// Dense encoding: 0, 1, or displacement + 2.
    pub fn as_u16(&self) -> (r: u16)
        ensures
            r == self.spec_as_u16(),
    {
        match *self {
            LDMode::PostIncrement => 0,
            LDMode::PreDecrement => 1,
            LDMode::Displacement(d) => d as u16 + 2,
        }
    }

    /// The value `as_u16` returns for this mode.
    pub open spec fn spec_as_u16(self) -> u16 {
        match self {
            LDMode::PostIncrement => 0,
            LDMode::PreDecrement => 1,
            LDMode::Displacement(d) => (d + 2) as u16,
        }
    }

    /// Inverse of `as_u16` on its range.
    pub fn from_u16(val: u16) -> (r: LDMode)
        requires
            val <= 257,
        ensures
            r.spec_as_u16() == val,
    {
        if val == 0 {
            LDMode::PostIncrement
        } else if val == 1 {
            LDMode::PreDecrement
        } else {
            LDMode::Displacement((val - 2) as u8)
        }
    }
}

/// Direction of a data transfer: into a register or out of it.
#[derive(Debug, Eq, PartialEq, Copy, Clone, Structural)]
pub enum LDType {
    LD,
    ST,
}

impl LDType {
    /// Dense encoding: LD is 0, ST is 1.
    pub fn as_u8(&self) -> (r: u8)
        ensures
            r == self.spec_as_u8(),
    {
        match *self {
            LDType::LD => 0,
            LDType::ST => 1,
        }
    }

    /// The value `as_u8` returns.
    pub open spec fn spec_as_u8(self) -> u8 {
        match self {
            LDType::LD => 0,
            LDType::ST => 1,
        }
    }

    /// Inverse of `as_u8`.
    pub fn from_u8(val: u8) -> (r: LDType)
        requires
            val < 2,
        ensures
            r.spec_as_u8() == val,
    {
        if val == 0 {
            LDType::LD
        } else {
            LDType::ST
        }
    }
}

/// Whether a program-memory load leaves Z alone or post-increments it.
#[derive(Debug, Eq, PartialEq, Copy, Clone, Structural)]
pub enum LPMType {
    Z,
    ZPostIncrement,
}

impl LPMType {
    /// Dense encoding: plain Z is 0, post-increment is 1.
    pub fn as_u8(&self) -> (r: u8)
        ensures
            r == self.spec_as_u8(),
    {
        match *self {
            LPMType::Z => 0,
            LPMType::ZPostIncrement => 1,
        }
    }

    /// The value `as_u8` returns.
    pub open spec fn spec_as_u8(self) -> u8 {
        match self {
            LPMType::Z => 0,
            LPMType::ZPostIncrement => 1,
        }
    }

    /// Inverse of `as_u8`.
    pub fn from_u8(val: u8) -> (r: LPMType)
        requires
            val < 2,
        ensures
            r.spec_as_u8() == val,
    {
        if val == 0 {
            LPMType::Z
        } else {
            LPMType::ZPostIncrement
        }
    }
}

/// Polarity shared by the bit-test, bit-write, and branch instructions.
#[derive(Debug, Eq, PartialEq, Copy, Clone, Structural)]
pub enum SetClear {
    SetBit,
    ClearBit,
}

impl SetClear {
    /// Dense encoding: Set is 1, Clear is 0.
    pub fn as_u8(&self) -> (r: u8)
        ensures
            r == self.spec_as_u8(),
    {
        match *self {
            SetClear::SetBit => 1,
            SetClear::ClearBit => 0,
        }
    }

    /// The value `as_u8` returns.
    pub open spec fn spec_as_u8(self) -> u8 {
        match self {
            SetClear::SetBit => 1,
            SetClear::ClearBit => 0,
        }
    }
}

/// A condition that stops execution with a diagnostic.
///
/// Every variant names the program counter (a word index) at which the fault
/// arose, beside the offending datum.
#[derive(Debug, Eq, PartialEq, Copy, Clone, Structural)]
pub enum Fault {
    /// An `UnknownOp`, `IncompleteOp`, or `SecondOpWord` slot was executed;
    /// carries the raw encoding.
    UnknownInstruction(u16, u32),
    /// An instruction operand lies outside its documented range, or the
    /// slot cannot be executed at all: a `SecondOpWord` reached by a jump
    /// into the middle of a two-word instruction, or an encoding the core
    /// leaves unimplemented.
    BadOperand(u16, Instruction),
    /// A data-memory access beyond the 2144-byte bus window.
    BusAddress(u16, u16),
    /// A program-memory byte read beyond the 32 KiB image.
    ProgramAddress(u16, u16),
    /// A control transfer to a word index outside the program space;
    /// carries the program counter of the transferring instruction.
    JumpTarget(u16),
    /// An external-interrupt sense mode the core does not implement
    /// (falling or rising edge); carries the interrupt number and the bits.
    SenseMode(u8, u8),
    /// A timer clock-select value outside the supported prescaler set.
    ClockSelect(u8),
    /// An ADC trigger whose configuration does not match the accepted
    /// profile, or a conversion with no supply voltage; carries ADMUX and
    /// the written ADCSRA value.
    AdcConfig(u8, u8),
}

} // verus!
