//! The daemon's transmit descriptor and ring records.

use vstd::prelude::*;
use crate::netd::descriptor::{TxFields, tx_word};

verus! {

/// A legacy transmit data descriptor: buffer address and the packed word
/// `Special | CSS | RSV | STA | CMD | CSO | Length`.
pub struct TxDataDesc {
    buff_address: u64,
    other: u64,
}

/// The name under which the daemon builds transmit descriptors.
pub type TxDesc = TxDataDesc;

/// The status byte of a transmit descriptor: the reserved nibble above the
/// status nibble.
pub open spec fn rsv_sta_byte(rsv: u8, sta: u8) -> u8 {
    (((rsv & 0xf) as u8) << 4u8) | ((sta & 0xf) as u8)
}

/// The status byte keeps the status nibble in its low half and the reserved
/// nibble in its high half.
pub proof fn lemma_rsv_sta_nibbles(rsv: u8, sta: u8)
    ensures
        rsv_sta_byte(rsv, sta) & 0xf == sta & 0xf,
        rsv_sta_byte(rsv, sta) >> 4u8 == rsv & 0xf,
{
    assert(((((rsv & 0xf) as u8) << 4u8) | ((sta & 0xf) as u8)) & 0xf == sta & 0xf) by (bit_vector);
    assert(((((rsv & 0xf) as u8) << 4u8) | ((sta & 0xf) as u8)) >> 4u8 == rsv & 0xf) by (bit_vector);
}

impl TxDesc {
    /// The buffer address.
    pub closed spec fn address(&self) -> u64 {
        self.buff_address
    }

    /// The packed second word.
    pub closed spec fn other_word(&self) -> u64 {
        self.other
    }

    /// Packs a legacy transmit descriptor. Only the low nibbles of `rsv` and
    /// `sta` are kept, and bit 5 of the command byte (DEXT, which would make it
    /// an extended descriptor) is cleared, so the descriptor is of the legacy
    /// type.
    pub fn new(
        address: u64,
        special: u16,
        css: u8,
        rsv: u8,
        sta: u8,
        cmd: u8,
        cso: u8,
        len: u16,
    ) -> (d: Self)
        ensures
            d.address() == address,
            d.other_word() == tx_word(
                TxFields {
                    special,
                    css,
                    rsv_sta: rsv_sta_byte(rsv, sta),
                    cmd: cmd & 0xdf,
                    cso,
                    length: len,
                },
            ),
    {
        let mut other: u64 = 0 | ((special as u64) << 48) | ((css as u64) << 40) | (((rsv
            & 0b1111) as u64) << 36) | (((sta & 0b1111) as u64) << 32) | ((cmd as u64) << 24) | ((
        cso as u64) << 16) | (len as u64);

        // Set type to Legacy: DEXT (bit 29) clear
        other &= !(0b1 << 29);
        assert(other == ((special as u64) << 48) | ((css as u64) << 40) | ((((((rsv & 0xf) as u8)
            << 4u8) | ((sta & 0xf) as u8)) as u64) << 32) | (((cmd & 0xdf) as u64) << 24) | ((
        cso as u64) << 16) | (len as u64)) by (bit_vector)
            requires
                other == (0 | ((special as u64) << 48) | ((css as u64) << 40) | (((rsv & 0b1111)
                    as u64) << 36) | (((sta & 0b1111) as u64) << 32) | ((cmd as u64) << 24) | ((
                cso as u64) << 16) | (len as u64)) & !(0b1u64 << 29u64),
        ;
        Self { buff_address: address, other }
    }

    /// The buffer address.
    pub fn buff_address(&self) -> (a: u64)
        ensures
            a == self.address(),
    {
        self.buff_address
    }

    /// The packed second word.
    pub fn other(&self) -> (w: u64)
        ensures
            w == self.other_word(),
    {
        self.other
    }
}

/// The transmit ring's registers as the daemon records them.
pub struct TxRing {
    base_address: u64,
    len: u16,
    head: u32,
    tail: u32,
}

impl TxRing {
    /// Base address.
    pub closed spec fn base(&self) -> u64 {
        self.base_address
    }

    /// Length in bytes.
    pub closed spec fn length(&self) -> u16 {
        self.len
    }

    /// Head index.
    pub closed spec fn head_index(&self) -> u32 {
        self.head
    }

    /// Tail index.
    pub closed spec fn tail_index(&self) -> u32 {
        self.tail
    }

    pub fn new(base_address: u64, len: u16, head: u32, tail: u32) -> (r: Self)
        ensures
            r.base() == base_address,
            r.length() == len,
            r.head_index() == head,
            r.tail_index() == tail,
    {
        Self { base_address, len, head, tail }
    }

    pub fn empty() -> (r: Self)
        ensures
            r.base() == 0,
            r.length() == 0,
            r.head_index() == 0,
            r.tail_index() == 0,
    {
        Self { base_address: 0, len: 0, head: 0, tail: 0 }
    }
}

} // verus!
