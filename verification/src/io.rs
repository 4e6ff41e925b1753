//! Wires: the boundary between the emulated pins and external peripherals.
//!
//! A wire carries a voltage in millivolts.  Port reads threshold it into a
//! digital level; port writes drive it to rail voltages.  Subscription and
//! rendering belong to the external collaborator that embeds the core; the
//! core itself only sets and samples values.

use vstd::prelude::*;

verus! {

/// The voltage a driven-high output pin carries, in millivolts.
pub const HIGH: u16 = 5000;

/// The voltage a driven-low output pin carries, in millivolts.
pub const LOW: u16 = 0;

/// The digital reading of a voltage: 1 above the midpoint between the rails,
/// 0 at or below it.
pub open spec fn spec_digital(mv: u16) -> u8 {
    if mv > LOW + (HIGH - LOW) / 2 {
        1
    } else {
        0
    }
}

/// A shared signal carrying a voltage in millivolts.
#[derive(Debug, Eq, PartialEq, Copy, Clone, Structural)]
pub struct Wire {
    /// The current voltage on the wire.
    pub level: u16,
}

impl Wire {
    /// A wire at the low rail.
    pub fn new() -> (r: Wire)
        ensures
            r.level == LOW,
    {
        Wire { level: LOW }
    }

    /// Drive the wire to `mv` millivolts.
    pub fn set(&mut self, mv: u16)
        ensures
            final(self).level == mv,
    {
        self.level = mv;
    }

    /// The current voltage in millivolts.
    pub fn mv(&self) -> (r: u16)
        ensures
            r == self.level,
    {
        self.level
    }

    /// The wire's digital level: 1 above mid-rail, 0 otherwise.
    pub fn as_bin(&self) -> (r: u8)
        ensures
            r == spec_digital(self.level),
    {
        if self.level > LOW + (HIGH - LOW) / 2 {
            1
        } else {
            0
        }
    }
}

/// The wires surrounding the microcontroller: supply rails, reset, and the
/// 32 port pins (port index times eight, plus pin index).
pub struct IO {
    /// Active-low reset line (observed by collaborators only).
    pub nreset: Wire,
    /// The supply rail; the ADC reference.
    pub vcc: Wire,
    /// The ground rail.
    pub gnd: Wire,
    /// The port pins, `p[port * 8 + pin]` for port 0-3 and pin 0-7.
    pub p: Vec<Wire>,
}

impl IO {
    /// Whether the pin vector has one wire per port pin.
    pub open spec fn wf(self) -> bool {
        self.p@.len() == 32
    }

    /// Fresh I/O wiring with every wire at the low rail.
    pub fn new() -> (r: IO)
        ensures
            r.wf(),
            r.vcc.level == LOW,
            r.gnd.level == LOW,
            r.nreset.level == LOW,
            forall|i: int| 0 <= i < 32 ==> r.p@[i].level == LOW,
    {
        let mut p: Vec<Wire> = Vec::new();
        let mut i: usize = 0;
        while i < 32
            invariant
                i <= 32,
                p@.len() == i,
                forall|j: int| 0 <= j < i ==> p@[j].level == LOW,
            decreases 32 - i,
        {
            p.push(Wire::new());
            i = i + 1;
        }
        IO { nreset: Wire::new(), vcc: Wire::new(), gnd: Wire::new(), p }
    }
}

} // verus!
