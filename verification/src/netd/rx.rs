//! The daemon's receive descriptor and ring records.

use vstd::prelude::*;
use crate::netd::descriptor::{RxFields, rx_word};

verus! {

/// A receive descriptor: buffer address and the packed word
/// `Special | Errors | Status | Packet Checksum | Length`.
pub struct RxDesc {
    buff_address: u64,
    other: u64,
}

impl RxDesc {
    /// The buffer address.
    pub closed spec fn address(&self) -> u64 {
        self.buff_address
    }

    /// The packed second word.
    pub closed spec fn other_word(&self) -> u64 {
        self.other
    }

    /// Packs a receive descriptor; the second word holds each field in the byte
    /// range that `Descriptor`'s receive accessors read.
    pub fn new(
        address: u64,
        special: u16,
        errors: u8,
        status: u8,
        packet_checksum: u16,
        len: u16,
    ) -> (d: Self)
        ensures
            d.address() == address,
            d.other_word() == rx_word(
                RxFields { special, errors, status, chksum: packet_checksum, length: len },
            ),
    {
        let other: u64 = 0 | ((special as u64) << 48) | ((errors as u64) << 40) | ((status as u64)
            << 32) | ((packet_checksum as u64) << 16) | (len as u64);
        assert(0 | ((special as u64) << 48) | ((errors as u64) << 40) | ((status as u64) << 32) | ((
        packet_checksum as u64) << 16) | (len as u64) == ((special as u64) << 48) | ((
        errors as u64) << 40) | ((status as u64) << 32) | ((packet_checksum as u64) << 16) | (
        len as u64)) by (bit_vector);
        Self { buff_address: address, other }
    }

    /// The buffer address.
    pub fn buff_address(&self) -> (a: u64)
        ensures
            a == self.address(),
    {
        self.buff_address
    }

    /// The packed second word.
    pub fn other(&self) -> (w: u64)
        ensures
            w == self.other_word(),
    {
        self.other
    }
}

/// The receive ring's registers as the daemon records them.
pub struct RxRing {
    pub base_address: u64,
    pub len: u16,
    pub head: u32,
    pub tail: u32,
}

} // verus!
