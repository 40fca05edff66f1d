//! The card's memory-mapped register window, held as the words it contains.

use vstd::prelude::*;

verus! {

/// Bytes in the register window.
pub const MMIO_WINDOW: u32 = 0x20000;

/// Number of 32-bit registers in the window.
pub const MMIO_REGS: usize = 0x8000;

/// Whether `offset` names a register: inside the window and 4-byte aligned.
pub open spec fn register_offset(offset: u32) -> bool {
    offset < MMIO_WINDOW && offset % 4 == 0
}

/// A model of the card's register window mapped at `base_address`: the words
/// of the window held as values, read back as they were last written. The
/// card's own changes to its registers are not modelled.
pub struct MMIO {
    base_address: u32,
    regs: Vec<u32>,
}

impl MMIO {
    /// The address the window is mapped at.
    pub closed spec fn base(&self) -> u32 {
        self.base_address
    }

    /// The registers, one word per 4 bytes of the window.
    pub closed spec fn regs(&self) -> Seq<u32> {
        self.regs@
    }

    /// The register at byte offset `offset`.
    pub open spec fn reg(&self, offset: u32) -> u32 {
        self.regs()[offset as int / 4]
    }

    /// Every register of the window is present.
    pub open spec fn wf(&self) -> bool {
        self.regs().len() == MMIO_REGS
    }

    /// A model of the window mapped at `base_address` in which every register
    /// reads zero.
    pub fn new(base_address: u32) -> (m: Self)
        ensures
            m.base() == base_address,
            m.wf(),
            forall|i: int| 0 <= i < MMIO_REGS ==> m.regs()[i] == 0,
    {
        MMIO { base_address: base_address, regs: vec![0u32; MMIO_REGS] }
    }

    /// Reads the register at byte offset `address_offset`.
    pub fn read(&self, address_offset: u32) -> (v: u32)
        requires
            self.wf(),
            register_offset(address_offset),
        ensures
            v == self.reg(address_offset),
    {
        self.regs[(address_offset / 4) as usize]
    }

    /// Writes the register at byte offset `address_offset`.
    pub fn write(&mut self, address_offset: u32, value: u32)
        requires
            old(self).wf(),
            register_offset(address_offset),
        ensures
            final(self).base() == old(self).base(),
            final(self).regs() == old(self).regs().update(address_offset as int / 4, value),
            final(self).wf(),
    {
        self.regs.set((address_offset / 4) as usize, value);
    }
}

} // verus!
