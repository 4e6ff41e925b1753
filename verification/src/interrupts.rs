//! The two interrupt sources: external pin interrupts INT0/INT1 and the
//! 16-bit timer TIMER1 in clear-on-compare (CTC) mode.
//!
//! Each source advances once per CPU step and latches its request as a flag
//! bit in GIFR or TIFR through the bus; delivery (vector dispatch) is the
//! step loop's business.

use vstd::prelude::*;

use crate::data::Fault;
use crate::memory::{
    add_wrap16, spec_bus_read, spec_bus_write, spec_io_reg16, spec_set_io_reg16, MemView, Memory,
    PIND_ADDR,
};
use crate::util::{bit, spec_bit};

verus! {

/// Bus address of GIFR, the external-interrupt flag register.
pub const GIFR_ADDR: u16 = 0x5A;

/// Bus address of GICR, the external-interrupt enable register.
pub const GICR_ADDR: u16 = 0x5B;

/// Bus address of MCUCR, holding the sense-control bits.
pub const MCUCR_ADDR: u16 = 0x55;

/// Bus address of TIFR, the timer flag register (OCF1A is bit 4).
pub const TIFR_ADDR: u16 = 0x58;

/// Bus address of TIMSK, the timer mask register (OCIE1A is bit 4).
pub const TIMSK_ADDR: u16 = 0x59;

/// Bus address of TCCR1B, whose low three bits select the prescaler.
pub const TCCR1B_ADDR: u16 = 0x4E;

/// I/O-register index of TCNT1 (low byte; bus address 0x4C).
pub const TCNT1_REG: u16 = 0x2c;

/// I/O-register index of OCR1A (low byte; bus address 0x4A).
pub const OCR1A_REG: u16 = 0x2a;

/// One advance of external interrupt `n` (0 or 1): when enabled in GICR,
/// latch the pin level of PD2+n and compare per the sense mode.  Mode 0
/// asserts while the level is low; mode 1 asserts on any edge; modes 2 and 3
/// are not implemented and fault.  Returns the new latch, the memory after
/// a possible GIFR update, and the fault if any.
pub open spec fn spec_ext_int_one(prev: u8, m: MemView, n: int) -> (u8, MemView, Option<Fault>) {
    let gicr = spec_bus_read(m, GICR_ADDR);
    if spec_bit(gicr, (6 + n) as u8) == 0 {
        (prev, m, None)
    } else {
        let mcucr = spec_bus_read(m, MCUCR_ADDR);
        let sense = spec_bit(mcucr, (2 * n) as u8) + 2 * spec_bit(mcucr, (2 * n + 1) as u8);
        let newv = spec_bit(spec_bus_read(m, PIND_ADDR), (2 + n) as u8);
        if sense == 0 || sense == 1 {
            let trig = if sense == 0 {
                newv == 0
            } else {
                newv != prev
            };
            if trig {
                let gifr = spec_bus_read(m, GIFR_ADDR);
                let mask: u8 = if n == 0 {
                    0x40
                } else {
                    0x80
                };
                (newv, spec_bus_write(m, GIFR_ADDR, gifr | mask).0, None)
            } else {
                (newv, m, None)
            }
        } else {
            (prev, m, Some(Fault::SenseMode(n as u8, sense as u8)))
        }
    }
}

/// One advance of both external interrupts, INT0 first; a fault in INT0
/// stops before INT1.
pub open spec fn spec_ext_int_step(p0: u8, p1: u8, m: MemView) -> (u8, u8, MemView, Option<
    Fault,
>) {
    let r0 = spec_ext_int_one(p0, m, 0);
    if r0.2 is Some {
        (r0.0, p1, r0.1, r0.2)
    } else {
        let r1 = spec_ext_int_one(p1, r0.1, 1);
        (r0.0, r1.0, r1.1, r1.2)
    }
}

/// Which external interrupt is pending, if any: INT0 (vector 1) before
/// INT1 (vector 2).  Claiming one clears its GIFR flag, so a `Some` answer
/// obliges the caller to deliver it.
pub open spec fn spec_ext_pending(m: MemView) -> (MemView, Option<int>) {
    let gifr = spec_bus_read(m, GIFR_ADDR);
    if spec_bit(gifr, 6) == 1 {
        (spec_bus_write(m, GIFR_ADDR, gifr & 0xbf).0, Some(1))
    } else if spec_bit(gifr, 7) == 1 {
        (spec_bus_write(m, GIFR_ADDR, gifr & 0x7f).0, Some(2))
    } else {
        (m, None)
    }
}

/// The prescaler selected by clock-select bits 1 through 5.
pub open spec fn spec_prescaler(cs: u8) -> u32 {
    if cs == 1 {
        1
    } else if cs == 2 {
        8
    } else if cs == 3 {
        64
    } else if cs == 4 {
        256
    } else {
        1024
    }
}

/// One advance of the timer: with a running clock (CS bits not zero) the
/// internal step counter climbs; when it reaches the prescaler it resets
/// and TCNT1 ticks.  A tick that starts with TCNT1 already equal to OCR1A
/// is the compare match: it clears TCNT1 and raises OCF1A in TIFR, so the
/// counter period is OCR1A + 1 ticks and TCNT1 does reach the compare
/// value.  Any other tick increments TCNT1.  Clock-select values above 5
/// fault.
pub open spec fn spec_timer_step(steps: u32, m: MemView) -> (u32, MemView, Option<Fault>) {
    let cs = spec_bus_read(m, TCCR1B_ADDR) % 8;
    if cs == 0 {
        (steps, m, None)
    } else {
        let st = vstd::wrapping::u32_specs::wrapping_add(steps, 1);
        if cs <= 5 {
            if st >= spec_prescaler(cs) {
                let tcnt = spec_io_reg16(m, TCNT1_REG);
                if tcnt == spec_io_reg16(m, OCR1A_REG) {
                    let tifr = spec_bus_read(m, TIFR_ADDR);
                    let m1 = spec_bus_write(m, TIFR_ADDR, tifr | 0x10).0;
                    (0, spec_set_io_reg16(m1, TCNT1_REG, 0).0, None)
                } else {
                    (0, spec_set_io_reg16(m, TCNT1_REG, add_wrap16(tcnt, 1)).0, None)
                }
            } else {
                (st, m, None)
            }
        } else {
            (st, m, Some(Fault::ClockSelect(cs)))
        }
    }
}

/// Whether the timer compare interrupt (vector 7) is pending: both OCIE1A
/// in TIMSK and OCF1A in TIFR set.  Claiming it clears OCF1A.
pub open spec fn spec_timer_pending(m: MemView) -> (MemView, Option<int>) {
    let timsk = spec_bus_read(m, TIMSK_ADDR);
    let tifr = spec_bus_read(m, TIFR_ADDR);
    if spec_bit(timsk, 4) == 1 && spec_bit(tifr, 4) == 1 {
        (spec_bus_write(m, TIFR_ADDR, tifr & 0xef).0, Some(7))
    } else {
        (m, None)
    }
}

/// The external-pin interrupt unit: INT0 on PD2 and INT1 on PD3, with the
/// previous pin levels latched for edge detection.
pub struct PortInterrupts {
    /// Last latched level of PD2.
    pub prev0: u8,
    /// Last latched level of PD3.
    pub prev1: u8,
}

impl PortInterrupts {
    /// A unit that has latched low on both pins.
    pub fn new() -> (r: PortInterrupts)
        ensures
            r.prev0 == 0,
            r.prev1 == 0,
    {
        PortInterrupts { prev0: 0, prev1: 0 }
    }

    /// Advance one external interrupt.
    fn step_one(prev: u8, mem: &mut Memory, n: u8) -> (r: (u8, Result<(), Fault>))
        requires
            old(mem).wf(),
            n < 2,
        ensures
            final(mem).wf(),
            r.0 == spec_ext_int_one(prev, old(mem)@, n as int).0,
            final(mem)@ == spec_ext_int_one(prev, old(mem)@, n as int).1,
            r.1 == crate::memory::fault_result(spec_ext_int_one(prev, old(mem)@, n as int).2),
    {
        let gicr = mem.data(GICR_ADDR);
        if bit(gicr, 6 + n) == 0 {
            return (prev, Ok(()));
        }
        let mcucr = mem.data(MCUCR_ADDR);
        let sense = bit(mcucr, 2 * n) + 2 * bit(mcucr, 2 * n + 1);
        let newv = bit(mem.data(PIND_ADDR), 2 + n);
        if sense == 0 || sense == 1 {
            let trig = if sense == 0 {
                newv == 0
            } else {
                newv != prev
            };
            if trig {
                let gifr = mem.data(GIFR_ADDR);
                let mask: u8 = if n == 0 {
                    0x40
                } else {
                    0x80
                };
                let w = mem.set_data(GIFR_ADDR, gifr | mask);
                proof {
                    assert(w is Ok);
                }
            }
            (newv, Ok(()))
        } else {
            (prev, Err(Fault::SenseMode(n, sense)))
        }
    }

    /// Advance both external interrupts: latch the pins and raise GIFR
    /// flags per the sense modes.
    pub fn step(&mut self, mem: &mut Memory) -> (r: Result<(), Fault>)
        requires
            old(mem).wf(),
        ensures
            final(mem).wf(),
            ({
                let s = spec_ext_int_step(old(self).prev0, old(self).prev1, old(mem)@);
                final(self).prev0 == s.0 && final(self).prev1 == s.1 && final(mem)@ == s.2 && r
                    == crate::memory::fault_result(s.3)
            }),
    {
        let (p0, r0) = Self::step_one(self.prev0, mem, 0);
        self.prev0 = p0;
        if let Err(f) = r0 {
            return Err(f);
        }
        let (p1, r1) = Self::step_one(self.prev1, mem, 1);
        self.prev1 = p1;
        r1
    }

    /// The pending external interrupt, if any; claiming it clears its flag,
    /// so a `Some` answer must be delivered.
    pub fn pending_interrupt(&mut self, mem: &mut Memory) -> (r: Option<usize>)
        requires
            old(mem).wf(),
        ensures
            final(mem).wf(),
            *final(self) == *old(self),
            final(mem)@ == spec_ext_pending(old(mem)@).0,
            r matches Some(v) ==> spec_ext_pending(old(mem)@).1 == Some(v as int),
            r is None ==> spec_ext_pending(old(mem)@).1 is None,
    {
        let gifr = mem.data(GIFR_ADDR);
        if bit(gifr, 6) == 1 {
            let w = mem.set_data(GIFR_ADDR, gifr & 0xbf);
            proof {
                assert(w is Ok);
            }
            return Some(1);
        }
        if bit(gifr, 7) == 1 {
            let w = mem.set_data(GIFR_ADDR, gifr & 0x7f);
            proof {
                assert(w is Ok);
            }
            return Some(2);
        }
        None
    }
}

/// The 16-bit timer with compare match: a step counter divides the CPU
/// clock by the prescaler, and each division ticks TCNT1.
pub struct TimerInterrupts {
    /// CPU steps since the last TCNT1 tick.
    pub steps: u32,
}

impl TimerInterrupts {
    /// A timer that has just ticked.
    pub fn new() -> (r: TimerInterrupts)
        ensures
            r.steps == 0,
    {
        TimerInterrupts { steps: 0 }
    }

    /// Advance the timer one CPU step.
    pub fn step(&mut self, mem: &mut Memory) -> (r: Result<(), Fault>)
        requires
            old(mem).wf(),
        ensures
            final(mem).wf(),
            ({
                let s = spec_timer_step(old(self).steps, old(mem)@);
                final(self).steps == s.0 && final(mem)@ == s.1 && r
                    == crate::memory::fault_result(s.2)
            }),
    {
        let cs = mem.data(TCCR1B_ADDR) % 8;
        if cs == 0 {
            return Ok(());
        }
        self.steps = self.steps.wrapping_add(1);
        if cs > 5 {
            return Err(Fault::ClockSelect(cs));
        }
        let prescaler: u32 = if cs == 1 {
            1
        } else if cs == 2 {
            8
        } else if cs == 3 {
            64
        } else if cs == 4 {
            256
        } else {
            1024
        };
        if self.steps >= prescaler {
            self.steps = 0;
            let tcnt = mem.io_reg16(TCNT1_REG as u8);
            if tcnt == mem.io_reg16(OCR1A_REG as u8) {
                let tifr = mem.data(TIFR_ADDR);
                let w = mem.set_data(TIFR_ADDR, tifr | 0x10);
                proof {
                    assert(w is Ok);
                }
                let w2 = mem.set_io_reg16(TCNT1_REG as u8, 0);
                proof {
                    assert(w2 is Ok);
                }
            } else {
                let w2 = mem.set_io_reg16(TCNT1_REG as u8, tcnt.wrapping_add(1));
                proof {
                    assert(w2 is Ok);
                }
            }
        }
        Ok(())
    }

    /// The pending timer interrupt, if any; claiming it clears OCF1A, so a
    /// `Some` answer must be delivered.
    pub fn pending_interrupt(&mut self, mem: &mut Memory) -> (r: Option<usize>)
        requires
            old(mem).wf(),
        ensures
            final(mem).wf(),
            *final(self) == *old(self),
            final(mem)@ == spec_timer_pending(old(mem)@).0,
            r matches Some(v) ==> spec_timer_pending(old(mem)@).1 == Some(v as int),
            r is None ==> spec_timer_pending(old(mem)@).1 is None,
    {
        let timsk = mem.data(TIMSK_ADDR);
        let tifr = mem.data(TIFR_ADDR);
        if bit(timsk, 4) == 1 && bit(tifr, 4) == 1 {
            let w = mem.set_data(TIFR_ADDR, tifr & 0xef);
            proof {
                assert(w is Ok);
            }
            return Some(7);
        }
        None
    }
}

} // verus!
