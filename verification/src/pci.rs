//! PCI configuration: the port-I/O address of a configuration register, and
//! the scan of the ECAM window that finds and enables the e1000.

use vstd::prelude::*;

verus! {

/// CONFIG_ADDRESS port.
pub const PCI_CONFIG_ADDRESS: u16 = 0xCF8;
/// CONFIG_DATA port.
pub const PCI_CONFIG_DATA: u16 = 0xCFC;
/// Every configuration address has bit 31 (enable) set.
pub const BASE_ADDRESS: u32 = 0x80000000;
pub const BUS_SHIFT: u32 = 16;
pub const SLOT_SHIFT: u32 = 11;
pub const FUNC_SHIFT: u32 = 8;
/// Register offsets name whole dwords: bits 0 and 1 are always 0.
pub const OFFSET_MASK: u32 = 0xFC;

/// The CONFIG_ADDRESS word that selects register `offset` of function `func`
/// of device `slot` on bus `bus`.
pub open spec fn config_address_of(bus: u8, slot: u8, func: u8, offset: u8) -> u32 {
    BASE_ADDRESS | ((bus as u32) << BUS_SHIFT) | ((slot as u32) << SLOT_SHIFT) | ((func as u32)
        << FUNC_SHIFT) | ((offset as u32) & OFFSET_MASK)
}

/// The CONFIG_ADDRESS word for a device on a bus selects exactly that
/// register: the enable bit is set, and the bus, slot, function and
/// dword-aligned offset can each be read back from their own bits, so no two
/// slots, functions or buses share a word.
pub proof fn lemma_config_address_fields(bus: u8, slot: u8, func: u8, offset: u8)
    requires
        slot < 32,
        func < 8,
    ensures
        config_address_of(bus, slot, func, offset) & 0x8000_0000 != 0,
        (config_address_of(bus, slot, func, offset) >> 16) & 0xff == bus as u32,
        (config_address_of(bus, slot, func, offset) >> 11) & 0x1f == slot as u32,
        (config_address_of(bus, slot, func, offset) >> 8) & 0x7 == func as u32,
        config_address_of(bus, slot, func, offset) & 0xff == (offset & 0xfc) as u32,
        (config_address_of(bus, slot, func, offset) >> 24) & 0x7f == 0,
{
    let (b, s, f, o) = (bus as u32, slot as u32, func as u32, offset as u32);
    assert({
        let a = 0x80000000u32 | (b << 16u32) | (s << 11u32) | (f << 8u32) | (o & 0xFCu32);
        &&& a & 0x8000_0000 != 0
        &&& (a >> 16) & 0xff == b
        &&& (a >> 11) & 0x1f == s
        &&& (a >> 8) & 0x7 == f
        &&& a & 0xff == o & 0xfc
        &&& (a >> 24) & 0x7f == 0
    }) by (bit_vector)
        requires
            b < 256,
            s < 32,
            f < 8,
            o < 256,
    ;
    assert((offset & 0xfc) as u32 == (offset as u32) & 0xfc) by (bit_vector);
}

/// The CONFIG_ADDRESS word that selects a configuration register; a read or
/// write of CONFIG_DATA then reaches that register.
pub fn config_address(bus: u8, slot: u8, func: u8, offset: u8) -> (address: u32)
    ensures
        address == config_address_of(bus, slot, func, offset),
{
    BASE_ADDRESS | (bus as u32) << BUS_SHIFT | (slot as u32) << SLOT_SHIFT | (func as u32)
        << FUNC_SHIFT | (offset as u32) & OFFSET_MASK
}

/// Where the e1000's registers are mapped.
pub const E1000_REGS: u32 = 0x40000000;
/// The e1000's vendor and device identifier, as the first configuration word.
pub const E1000_DEVICE_ID: u32 = 0x100e8086;
/// The last device number the scan looks at.
pub const LAST_DEVICE: u32 = 0x20;
/// Index of the command register among the configuration words.
pub const PCI_COMMAND_INDEX: usize = 1;
/// Command register value that enables I/O access, memory access and bus
/// mastering.
pub const PCI_COMMAND_ENABLE: u32 = 0x7;
/// Index of the first base address register among the configuration words.
pub const PCI_BAR0_INDEX: usize = 4;

/// The configuration space of device `dev` in the ECAM window at `ecam`.
pub open spec fn config_base_of(ecam: usize, dev: u32) -> int {
    ecam + dev * 2048
}

/// The scan for the e1000 on bus 0, one device at a time.
pub struct PciScan {
    dev: u32,
    found: bool,
}

/// What the scan does after reading a device's identifier.
pub enum PciScanStep {
    /// Read the identifier of the next device: the first word of its
    /// configuration space, at this address.
    Probe(usize),
    /// The e1000 sits at this configuration base: write `PCI_COMMAND_ENABLE`
    /// to its command word and `E1000_REGS` to its first base address
    /// register. The scan is over.
    Configure(usize),
    /// No device is left to look at.
    Done,
}

impl PciScan {
    /// The device number the scan looks at next.
    pub closed spec fn device(&self) -> u32 {
        self.dev
    }

    /// Whether the e1000 was found.
    pub closed spec fn has_found(&self) -> bool {
        self.found
    }

    /// Whether the scan is over.
    pub open spec fn finished(&self) -> bool {
        self.has_found() || self.device() > LAST_DEVICE
    }

    /// A scan that starts at device 0.
    pub fn new() -> (s: Self)
        ensures
            s.device() == 0,
            !s.has_found(),
    {
        PciScan { dev: 0, found: false }
    }

    /// The address to read the current device's identifier from (the first
    /// word of its configuration space), or `None` when the scan is over.
    pub fn next_probe(&self, ecam: usize) -> (addr: Option<usize>)
        requires
            ecam + LAST_DEVICE * 2048 <= usize::MAX,
        ensures
            addr == if self.finished() {
                None::<usize>
            } else {
                Some(config_base_of(ecam, self.device()) as usize)
            },
    {
        if !(self.dev <= LAST_DEVICE && !self.found) {
            return None;
        }
        let dev = self.dev;
        let off: u32 = dev << 11;
        assert(dev << 11 == dev * 2048) by (bit_vector)
            requires
                dev <= 0x20,
        ;
        Some(off as usize + ecam)
    }

    /// Takes the identifier read for the current device: the e1000 ends the
    /// scan and is configured, anything else moves the scan to the next device.
    pub fn observe(&mut self, ecam: usize, device_id: u32) -> (step: PciScanStep)
        requires
            !old(self).finished(),
            ecam + LAST_DEVICE * 2048 <= usize::MAX,
        ensures
            final(self).device() == old(self).device() + 1,
            final(self).has_found() == (device_id == E1000_DEVICE_ID),
            step == if device_id == E1000_DEVICE_ID {
                PciScanStep::Configure(config_base_of(ecam, old(self).device()) as usize)
            } else if final(self).device() > LAST_DEVICE {
                PciScanStep::Done
            } else {
                PciScanStep::Probe(config_base_of(ecam, final(self).device()) as usize)
            },
    {
        let dev = self.dev;
        let off: u32 = dev << 11;
        assert(dev << 11 == dev * 2048) by (bit_vector)
            requires
                dev <= 0x20,
        ;
        let base = off as usize + ecam;
        if device_id == E1000_DEVICE_ID {
            self.found = true;
        }
        self.dev = self.dev + 1;
        if self.found {
            PciScanStep::Configure(base)
        } else {
            match self.next_probe(ecam) {
                Some(addr) => PciScanStep::Probe(addr),
                None => PciScanStep::Done,
            }
        }
    }
}

} // verus!
