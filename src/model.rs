//! Software models of remote peripherals that speak the framing protocol,
//! for exercising the driver without hardware.

use vstd::prelude::*;

use crate::bus::SpiBus;

verus! {

/// A peripheral that answers every byte time with the byte it was sent one
/// byte time earlier in the same transaction (a zero first).
pub struct DelayLine {
    last: u8,
}

impl DelayLine {
    pub fn new() -> Self {
        DelayLine { last: 0 }
    }
}

impl SpiBus for DelayLine {
    fn cs_low(&mut self) {
        self.last = 0;
    }

    fn cs_high(&mut self) {
    }

    fn transfer_byte(&mut self, tx: u8) -> u8 {
        let rx = self.last;
        self.last = tx;
        rx
    }
}

/// Number of registers of [`RegisterPeripheral`].
pub const REGISTER_COUNT: usize = 256;

/// A peripheral with a file of 256 byte registers. It takes in each frame
/// when chip-select goes high: a write frame `[2, addr, value]` stores the
/// value. The register addressed by the last complete write or read frame
/// is sent back in the first byte time of the next transaction.
pub struct RegisterPeripheral {
    regs: Vec<u8>,
    frame: Vec<u8>,
    staged: u8,
}

impl RegisterPeripheral {
    /// All registers zero.
    pub fn new() -> (r: Self)
        ensures
            r.registers() == Seq::new(REGISTER_COUNT as nat, |i: int| 0u8),
    {
        let mut regs: Vec<u8> = Vec::new();
        let mut k: usize = 0;
        while k < REGISTER_COUNT
            invariant
                k <= REGISTER_COUNT,
                regs@ =~= Seq::new(k as nat, |i: int| 0u8),
            decreases REGISTER_COUNT - k,
        {
            regs.push(0u8);
            k = k + 1;
        }
        RegisterPeripheral { regs, frame: Vec::new(), staged: 0 }
    }

    /// The register file.
    pub closed spec fn registers(&self) -> Seq<u8> {
        self.regs@
    }

    /// The value of register `addr`.
    pub fn register(&self, addr: u8) -> (r: u8)
        ensures
            (addr as int) < self.registers().len() ==> r == self.registers()[addr as int],
    {
        if (addr as usize) < self.regs.len() {
            self.regs[addr as usize]
        } else {
            0
        }
    }
}

impl SpiBus for RegisterPeripheral {
    fn cs_low(&mut self) {
        self.frame = Vec::new();
    }

    fn cs_high(&mut self) {
        if self.frame.len() == 3 {
            let addr = self.frame[1] as usize;
            if addr < self.regs.len() {
                if self.frame[0] == 2 {
                    self.regs.set(addr, self.frame[2]);
                }
                if self.frame[0] == 2 || self.frame[0] == 3 {
                    self.staged = self.regs[addr];
                }
            }
        }
    }

    fn transfer_byte(&mut self, tx: u8) -> u8 {
        let rx = if self.frame.len() == 0 { self.staged } else { 0 };
        if self.frame.len() < 3 {
            self.frame.push(tx);
        }
        rx
    }
}

} // verus!
