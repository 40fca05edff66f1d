//! Legacy e1000 descriptors as the daemon keeps them: a buffer address and a
//! second 64-bit word that packs the remaining fields.

use vstd::prelude::*;
use crate::error::Error;
use crate::netd::dma_info::{DESCRIPTOR_SIZE, DmaInfo, DmaLayout, lemma_info_bounded, lemma_layout_bounds};
use crate::netd::dma_manager::DmaManager;
use crate::netd::volatile_cell::VolatileCell;

verus! {

/// The fields that a transmit descriptor keeps in its second word.
pub ghost struct TxFields {
    pub special: u16,
    pub css: u8,
    pub rsv_sta: u8,
    pub cmd: u8,
    pub cso: u8,
    pub length: u16,
}

/// Reads the transmit fields out of a descriptor's second word: each field is
/// the bits of its own byte range, least significant first.
pub open spec fn tx_fields_of(w: u64) -> TxFields {
    TxFields {
        special: (w >> 48) as u16,
        css: (w >> 40) as u8,
        rsv_sta: (w >> 32) as u8,
        cmd: (w >> 24) as u8,
        cso: (w >> 16) as u8,
        length: w as u16,
    }
}

/// The fields that a receive descriptor keeps in its second word.
pub ghost struct RxFields {
    pub special: u16,
    pub errors: u8,
    pub status: u8,
    pub chksum: u16,
    pub length: u16,
}

/// Reads the receive fields out of a descriptor's second word: each field is
/// the bits of its own byte range, least significant first.
pub open spec fn rx_fields_of(w: u64) -> RxFields {
    RxFields {
        special: (w >> 48) as u16,
        errors: (w >> 40) as u8,
        status: (w >> 32) as u8,
        chksum: (w >> 16) as u16,
        length: w as u16,
    }
}

/// The second word that holds the given transmit fields.
pub open spec fn tx_word(f: TxFields) -> u64 {
    ((f.special as u64) << 48) | ((f.css as u64) << 40) | ((f.rsv_sta as u64) << 32) | ((
    f.cmd as u64) << 24) | ((f.cso as u64) << 16) | (f.length as u64)
}

/// The second word that holds the given receive fields.
pub open spec fn rx_word(f: RxFields) -> u64 {
    ((f.special as u64) << 48) | ((f.errors as u64) << 40) | ((f.status as u64) << 32) | ((
    f.chksum as u64) << 16) | (f.length as u64)
}

/// The transmit fields of a word determine it: packing what was read gives the
/// word back, so two words with equal fields are equal.
pub proof fn lemma_tx_fields_determine_word(w: u64)
    ensures
        tx_word(tx_fields_of(w)) == w,
{
    assert(((((w >> 48) as u16) as u64) << 48) | ((((w >> 40) as u8) as u64) << 40) | ((((w
        >> 32) as u8) as u64) << 32) | ((((w >> 24) as u8) as u64) << 24) | ((((w >> 16) as u8)
        as u64) << 16) | (((w as u16) as u64)) == w) by (bit_vector);
}

/// The receive fields of a word determine it: packing what was read gives the
/// word back, so two words with equal fields are equal.
pub proof fn lemma_rx_fields_determine_word(w: u64)
    ensures
        rx_word(rx_fields_of(w)) == w,
{
    assert(((((w >> 48) as u16) as u64) << 48) | ((((w >> 40) as u8) as u64) << 40) | ((((w
        >> 32) as u8) as u64) << 32) | ((((w >> 16) as u16) as u64) << 16) | (((w as u16)
        as u64)) == w) by (bit_vector);
}

/// Reading fields out of a packed word gives back the fields that were packed.
pub proof fn lemma_fields_of_word(t: TxFields, r: RxFields)
    ensures
        tx_fields_of(tx_word(t)) == t,
        rx_fields_of(rx_word(r)) == r,
{
    let (a, b, c, d, e, g) = (t.special, t.css, t.rsv_sta, t.cmd, t.cso, t.length);
    assert({
        let w = ((a as u64) << 48) | ((b as u64) << 40) | ((c as u64) << 32) | ((d as u64) << 24)
            | ((e as u64) << 16) | (g as u64);
        &&& (w >> 48) as u16 == a
        &&& (w >> 40) as u8 == b
        &&& (w >> 32) as u8 == c
        &&& (w >> 24) as u8 == d
        &&& (w >> 16) as u8 == e
        &&& w as u16 == g
    }) by (bit_vector);
    let (a, b, c, d, e) = (r.special, r.errors, r.status, r.chksum, r.length);
    assert({
        let w = ((a as u64) << 48) | ((b as u64) << 40) | ((c as u64) << 32) | ((d as u64) << 16)
            | (e as u64);
        &&& (w >> 48) as u16 == a
        &&& (w >> 40) as u8 == b
        &&& (w >> 32) as u8 == c
        &&& (w >> 16) as u16 == d
        &&& w as u16 == e
    }) by (bit_vector);
}

/// The direction of a ring.
pub enum DescType {
    Tx,
    Rx,
}

impl DescType {
    /// Where this direction's ring starts in a layout.
    pub open spec fn ring_offset_in(&self, l: DmaLayout) -> nat {
        match self {
            DescType::Tx => l.tx_ring_offset(),
            DescType::Rx => l.rx_ring_offset(),
        }
    }

    /// Where this direction's buffers start in a layout.
    pub open spec fn buff_offset_in(&self, l: DmaLayout) -> nat {
        match self {
            DescType::Tx => l.tx_buff_offset(),
            DescType::Rx => l.rx_buff_offset(),
        }
    }

    pub fn ring_offset(&self, info: &DmaInfo) -> (n: usize)
        ensures
            n == self.ring_offset_in(info@),
    {
        match self {
            Self::Tx => info.tx_ring_offset(),
            Self::Rx => info.rx_ring_offset(),
        }
    }

    pub fn buff_offset(&self, info: &DmaInfo) -> (n: usize)
        ensures
            n == self.buff_offset_in(info@),
    {
        match self {
            Self::Tx => info.tx_buff_offset(),
            Self::Rx => info.rx_buff_offset(),
        }
    }
}

/// The offset of descriptor `i` from the start of a DMA area, for one
/// direction: descriptors follow one another in the direction's ring.
pub open spec fn descriptor_offset(l: DmaLayout, dtype: DescType, i: int) -> int {
    dtype.ring_offset_in(l) + i * DESCRIPTOR_SIZE
}

/// The offset of buffer `i` from the start of a DMA area, for one direction.
pub open spec fn buffer_offset(l: DmaLayout, dtype: DescType, i: int) -> int {
    dtype.buff_offset_in(l) + i * l.buff_len
}

/// The two layouts share the special field, the length field and the status
/// byte: what the card writes back as a receive status is what the driver
/// reads as a transmit status.
pub proof fn lemma_layouts_share_fields(w: u64)
    ensures
        tx_fields_of(w).special == rx_fields_of(w).special,
        tx_fields_of(w).rsv_sta == rx_fields_of(w).status,
        tx_fields_of(w).length == rx_fields_of(w).length,
        tx_fields_of(w).css == rx_fields_of(w).errors,
{
}

/// The all-zero word holds zero in every field, whichever way it is read.
pub proof fn lemma_zero_word_fields()
    ensures
        tx_fields_of(0) == (TxFields { special: 0, css: 0, rsv_sta: 0, cmd: 0, cso: 0, length: 0 }),
        rx_fields_of(0) == (RxFields { special: 0, errors: 0, status: 0, chksum: 0, length: 0 }),
{
    let z = 0u64;
    assert({
        &&& (z >> 48) as u16 == 0
        &&& (z >> 40) as u8 == 0
        &&& (z >> 32) as u8 == 0
        &&& (z >> 24) as u8 == 0
        &&& (z >> 16) as u8 == 0
        &&& (z >> 16) as u16 == 0
        &&& z as u16 == 0
    }) by (bit_vector)
        requires
            z == 0,
    ;
}

/// Buffer `i` of a direction lies inside that direction's buffer region, and
/// the buffers of two different indices do not overlap.
pub proof fn lemma_buffers_disjoint(l: DmaLayout, dtype: DescType, i: int, j: int)
    requires
        0 <= i < j < l.desc_count,
    ensures
        dtype.buff_offset_in(l) <= buffer_offset(l, dtype, i),
        buffer_offset(l, dtype, i) + l.buff_len <= buffer_offset(l, dtype, j),
        buffer_offset(l, dtype, j) + l.buff_len <= dtype.buff_offset_in(l) + l.buffers_len(),
{
    assert(i * l.buff_len + l.buff_len <= j * l.buff_len) by (nonlinear_arith)
        requires
            i < j,
    ;
    assert(j * l.buff_len + l.buff_len <= l.desc_count * l.buff_len) by (nonlinear_arith)
        requires
            j < l.desc_count,
    ;
    assert(0 <= i * l.buff_len) by (nonlinear_arith)
        requires
            0 <= i,
    ;
}

/// Masking a field out of a word and shifting it down reads the same bits as
/// shifting the word and truncating.
proof fn lemma_masked_fields(f: u64)
    ensures
        ((f & 0xffff0000_00000000) >> 48) as u16 == (f >> 48) as u16,
        ((f & 0x0000ff00_00000000) >> 40) as u8 == (f >> 40) as u8,
        ((f & 0x000000ff_00000000) >> 32) as u8 == (f >> 32) as u8,
        ((f & 0x00000000_ff000000) >> 24) as u8 == (f >> 24) as u8,
        ((f & 0x00000000_00ff0000) >> 16) as u8 == (f >> 16) as u8,
        (f & 0x00000000_0000ffff) as u16 == f as u16,
        ((f & 0x00000000_ffff0000) >> 16) as u16 == (f >> 16) as u16,
{
    assert({
        &&& ((f & 0xffff0000_00000000) >> 48) as u16 == (f >> 48) as u16
        &&& ((f & 0x0000ff00_00000000) >> 40) as u8 == (f >> 40) as u8
        &&& ((f & 0x000000ff_00000000) >> 32) as u8 == (f >> 32) as u8
        &&& ((f & 0x00000000_ff000000) >> 24) as u8 == (f >> 24) as u8
        &&& ((f & 0x00000000_00ff0000) >> 16) as u8 == (f >> 16) as u8
        &&& (f & 0x00000000_0000ffff) as u16 == f as u16
        &&& ((f & 0x00000000_ffff0000) >> 16) as u16 == (f >> 16) as u16
    }) by (bit_vector);
}

/// A descriptor: the physical address of its buffer and a second word whose
/// fields depend on the direction (see `TxFields` and `RxFields`).
#[derive(Debug)]
pub struct Descriptor {
    buff_address: VolatileCell<u64>,
    fields: VolatileCell<u64>,
}

impl Descriptor {
    /// The buffer address word.
    pub closed spec fn addr_word(&self) -> u64 {
        self.buff_address@
    }

    /// The second word.
    pub closed spec fn fields_word(&self) -> u64 {
        self.fields@
    }

    /// The second word read as a transmit descriptor.
    pub open spec fn tx_fields(&self) -> TxFields {
        tx_fields_of(self.fields_word())
    }

    /// The second word read as a receive descriptor.
    pub open spec fn rx_fields(&self) -> RxFields {
        rx_fields_of(self.fields_word())
    }

    /// A descriptor with both words zero, as in freshly cleared DMA memory.
    pub fn zeroed() -> (d: Self)
        ensures
            d.addr_word() == 0,
            d.fields_word() == 0,
    {
        Descriptor { buff_address: VolatileCell::new(0), fields: VolatileCell::new(0) }
    }

    /// Writes the buffer address.
    pub fn set_buff_address(&mut self, value: u64)
        ensures
            final(self).addr_word() == value,
            final(self).fields_word() == old(self).fields_word(),
    {
        self.buff_address.write(value);
    }

    /// Reads the buffer address.
    pub fn get_buff_address(&self) -> (v: u64)
        ensures
            v == self.addr_word(),
    {
        self.buff_address.read()
    }

    /// Writes the transmit special field (bits 48..63 of the second word),
    /// keeping every other bit.
    pub fn set_tx_special(&mut self, value: u16)
        ensures
            final(self).addr_word() == old(self).addr_word(),
            final(self).tx_fields() == (TxFields {
                special: value,
                css: old(self).tx_fields().css,
                rsv_sta: old(self).tx_fields().rsv_sta,
                cmd: old(self).tx_fields().cmd,
                cso: old(self).tx_fields().cso,
                length: old(self).tx_fields().length,
            }),
            final(self).fields_word() & 0x0000ffff_ffffffff == old(self).fields_word() & 0x0000ffff_ffffffff,
    {
        let mut fields = self.fields.read();
        let ghost ow = fields;
        fields &= 0x0000ffff_ffffffff;
        fields |= (value as u64) << 48;
        let ghost nw = fields;
        assert({
            &&& (nw >> 48) as u16 == value
            &&& (nw >> 40) as u8 == (ow >> 40) as u8
            &&& (nw >> 32) as u8 == (ow >> 32) as u8
            &&& (nw >> 24) as u8 == (ow >> 24) as u8
            &&& (nw >> 16) as u8 == (ow >> 16) as u8
            &&& nw as u16 == ow as u16
            &&& nw & 0x0000ffff_ffffffff == ow & 0x0000ffff_ffffffff
        }) by (bit_vector)
            requires
                nw == (ow & 0x0000ffff_ffffffff) | ((value as u64) << 48),
        ;
        self.fields.write(fields);
    }

    /// Writes the transmit checksum start field (bits 40..47 of the second word),
    /// keeping every other bit.
    pub fn set_tx_css(&mut self, value: u8)
        ensures
            final(self).addr_word() == old(self).addr_word(),
            final(self).tx_fields() == (TxFields {
                special: old(self).tx_fields().special,
                css: value,
                rsv_sta: old(self).tx_fields().rsv_sta,
                cmd: old(self).tx_fields().cmd,
                cso: old(self).tx_fields().cso,
                length: old(self).tx_fields().length,
            }),
            final(self).fields_word() & 0xffff00ff_ffffffff == old(self).fields_word() & 0xffff00ff_ffffffff,
    {
        let mut fields = self.fields.read();
        let ghost ow = fields;
        fields &= 0xffff00ff_ffffffff;
        fields |= (value as u64) << 40;
        let ghost nw = fields;
        assert({
            &&& (nw >> 48) as u16 == (ow >> 48) as u16
            &&& (nw >> 40) as u8 == value
            &&& (nw >> 32) as u8 == (ow >> 32) as u8
            &&& (nw >> 24) as u8 == (ow >> 24) as u8
            &&& (nw >> 16) as u8 == (ow >> 16) as u8
            &&& nw as u16 == ow as u16
            &&& nw & 0xffff00ff_ffffffff == ow & 0xffff00ff_ffffffff
        }) by (bit_vector)
            requires
                nw == (ow & 0xffff00ff_ffffffff) | ((value as u64) << 40),
        ;
        self.fields.write(fields);
    }

    /// Writes the transmit status byte (reserved and status nibbles) (bits 32..39 of the second word),
    /// keeping every other bit.
    pub fn set_tx_rsv_sta(&mut self, value: u8)
        ensures
            final(self).addr_word() == old(self).addr_word(),
            final(self).tx_fields() == (TxFields {
                special: old(self).tx_fields().special,
                css: old(self).tx_fields().css,
                rsv_sta: value,
                cmd: old(self).tx_fields().cmd,
                cso: old(self).tx_fields().cso,
                length: old(self).tx_fields().length,
            }),
            final(self).fields_word() & 0xffffff00_ffffffff == old(self).fields_word() & 0xffffff00_ffffffff,
    {
        let mut fields = self.fields.read();
        let ghost ow = fields;
        fields &= 0xffffff00_ffffffff;
        fields |= (value as u64) << 32;
        let ghost nw = fields;
        assert({
            &&& (nw >> 48) as u16 == (ow >> 48) as u16
            &&& (nw >> 40) as u8 == (ow >> 40) as u8
            &&& (nw >> 32) as u8 == value
            &&& (nw >> 24) as u8 == (ow >> 24) as u8
            &&& (nw >> 16) as u8 == (ow >> 16) as u8
            &&& nw as u16 == ow as u16
            &&& nw & 0xffffff00_ffffffff == ow & 0xffffff00_ffffffff
        }) by (bit_vector)
            requires
                nw == (ow & 0xffffff00_ffffffff) | ((value as u64) << 32),
        ;
        self.fields.write(fields);
    }

    /// Writes the transmit command byte (bits 24..31 of the second word),
    /// keeping every other bit.
    pub fn set_tx_cmd(&mut self, value: u8)
        ensures
            final(self).addr_word() == old(self).addr_word(),
            final(self).tx_fields() == (TxFields {
                special: old(self).tx_fields().special,
                css: old(self).tx_fields().css,
                rsv_sta: old(self).tx_fields().rsv_sta,
                cmd: value,
                cso: old(self).tx_fields().cso,
                length: old(self).tx_fields().length,
            }),
            final(self).fields_word() & 0xffffffff_00ffffff == old(self).fields_word() & 0xffffffff_00ffffff,
    {
        let mut fields = self.fields.read();
        let ghost ow = fields;
        fields &= 0xffffffff_00ffffff;
        fields |= (value as u64) << 24;
        let ghost nw = fields;
        assert({
            &&& (nw >> 48) as u16 == (ow >> 48) as u16
            &&& (nw >> 40) as u8 == (ow >> 40) as u8
            &&& (nw >> 32) as u8 == (ow >> 32) as u8
            &&& (nw >> 24) as u8 == value
            &&& (nw >> 16) as u8 == (ow >> 16) as u8
            &&& nw as u16 == ow as u16
            &&& nw & 0xffffffff_00ffffff == ow & 0xffffffff_00ffffff
        }) by (bit_vector)
            requires
                nw == (ow & 0xffffffff_00ffffff) | ((value as u64) << 24),
        ;
        self.fields.write(fields);
    }

    /// Writes the transmit checksum offset field (bits 16..23 of the second word),
    /// keeping every other bit.
    pub fn set_tx_cso(&mut self, value: u8)
        ensures
            final(self).addr_word() == old(self).addr_word(),
            final(self).tx_fields() == (TxFields {
                special: old(self).tx_fields().special,
                css: old(self).tx_fields().css,
                rsv_sta: old(self).tx_fields().rsv_sta,
                cmd: old(self).tx_fields().cmd,
                cso: value,
                length: old(self).tx_fields().length,
            }),
            final(self).fields_word() & 0xffffffff_ff00ffff == old(self).fields_word() & 0xffffffff_ff00ffff,
    {
        let mut fields = self.fields.read();
        let ghost ow = fields;
        fields &= 0xffffffff_ff00ffff;
        fields |= (value as u64) << 16;
        let ghost nw = fields;
        assert({
            &&& (nw >> 48) as u16 == (ow >> 48) as u16
            &&& (nw >> 40) as u8 == (ow >> 40) as u8
            &&& (nw >> 32) as u8 == (ow >> 32) as u8
            &&& (nw >> 24) as u8 == (ow >> 24) as u8
            &&& (nw >> 16) as u8 == value
            &&& nw as u16 == ow as u16
            &&& nw & 0xffffffff_ff00ffff == ow & 0xffffffff_ff00ffff
        }) by (bit_vector)
            requires
                nw == (ow & 0xffffffff_ff00ffff) | ((value as u64) << 16),
        ;
        self.fields.write(fields);
    }

    /// Writes the transmit length field (bits 0..15 of the second word),
    /// keeping every other bit.
    pub fn set_tx_length(&mut self, value: u16)
        ensures
            final(self).addr_word() == old(self).addr_word(),
            final(self).tx_fields() == (TxFields {
                special: old(self).tx_fields().special,
                css: old(self).tx_fields().css,
                rsv_sta: old(self).tx_fields().rsv_sta,
                cmd: old(self).tx_fields().cmd,
                cso: old(self).tx_fields().cso,
                length: value,
            }),
            final(self).fields_word() & 0xffffffff_ffff0000 == old(self).fields_word() & 0xffffffff_ffff0000,
    {
        let mut fields = self.fields.read();
        let ghost ow = fields;
        fields &= 0xffffffff_ffff0000;
        fields |= value as u64;
        let ghost nw = fields;
        assert({
            &&& (nw >> 48) as u16 == (ow >> 48) as u16
            &&& (nw >> 40) as u8 == (ow >> 40) as u8
            &&& (nw >> 32) as u8 == (ow >> 32) as u8
            &&& (nw >> 24) as u8 == (ow >> 24) as u8
            &&& (nw >> 16) as u8 == (ow >> 16) as u8
            &&& nw as u16 == value
            &&& nw & 0xffffffff_ffff0000 == ow & 0xffffffff_ffff0000
        }) by (bit_vector)
            requires
                nw == (ow & 0xffffffff_ffff0000) | (value as u64),
        ;
        self.fields.write(fields);
    }

    /// Reads the transmit special field (bits 48..63 of the second word).
    pub fn get_tx_special(&self) -> (v: u16)
        ensures
            v == self.tx_fields().special,
    {
        let fields = self.fields.read();
        proof {
            lemma_masked_fields(fields);
        }
        ((fields & 0xffff0000_00000000) >> 48) as u16
    }

    /// Reads the transmit checksum start field (bits 40..47 of the second word).
    pub fn get_tx_css(&self) -> (v: u8)
        ensures
            v == self.tx_fields().css,
    {
        let fields = self.fields.read();
        proof {
            lemma_masked_fields(fields);
        }
        ((fields & 0x0000ff00_00000000) >> 40) as u8
    }

    /// Reads the transmit status byte (reserved and status nibbles) (bits 32..39 of the second word).
    pub fn get_tx_rsv_sta(&self) -> (v: u8)
        ensures
            v == self.tx_fields().rsv_sta,
    {
        let fields = self.fields.read();
        proof {
            lemma_masked_fields(fields);
        }
        ((fields & 0x000000ff_00000000) >> 32) as u8
    }

    /// Reads the transmit command byte (bits 24..31 of the second word).
    pub fn get_tx_cmd(&self) -> (v: u8)
        ensures
            v == self.tx_fields().cmd,
    {
        let fields = self.fields.read();
        proof {
            lemma_masked_fields(fields);
        }
        ((fields & 0x00000000_ff000000) >> 24) as u8
    }

    /// Reads the transmit checksum offset field (bits 16..23 of the second word).
    pub fn get_tx_cso(&self) -> (v: u8)
        ensures
            v == self.tx_fields().cso,
    {
        let fields = self.fields.read();
        proof {
            lemma_masked_fields(fields);
        }
        ((fields & 0x00000000_00ff0000) >> 16) as u8
    }

    /// Reads the transmit length field (bits 0..15 of the second word).
    pub fn get_tx_length(&self) -> (v: u16)
        ensures
            v == self.tx_fields().length,
    {
        let fields = self.fields.read();
        proof {
            lemma_masked_fields(fields);
        }
        (fields & 0x00000000_0000ffff) as u16
    }

    /// Writes the receive special field (bits 48..63 of the second word),
    /// keeping every other bit.
    pub fn set_rx_special(&mut self, value: u16)
        ensures
            final(self).addr_word() == old(self).addr_word(),
            final(self).rx_fields() == (RxFields {
                special: value,
                errors: old(self).rx_fields().errors,
                status: old(self).rx_fields().status,
                chksum: old(self).rx_fields().chksum,
                length: old(self).rx_fields().length,
            }),
            final(self).fields_word() & 0x0000ffff_ffffffff == old(self).fields_word() & 0x0000ffff_ffffffff,
    {
        let mut fields = self.fields.read();
        let ghost ow = fields;
        fields &= 0x0000ffff_ffffffff;
        fields |= (value as u64) << 48;
        let ghost nw = fields;
        assert({
            &&& (nw >> 48) as u16 == value
            &&& (nw >> 40) as u8 == (ow >> 40) as u8
            &&& (nw >> 32) as u8 == (ow >> 32) as u8
            &&& (nw >> 16) as u16 == (ow >> 16) as u16
            &&& nw as u16 == ow as u16
            &&& nw & 0x0000ffff_ffffffff == ow & 0x0000ffff_ffffffff
        }) by (bit_vector)
            requires
                nw == (ow & 0x0000ffff_ffffffff) | ((value as u64) << 48),
        ;
        self.fields.write(fields);
    }

    /// Writes the receive errors byte (bits 40..47 of the second word),
    /// keeping every other bit.
    pub fn set_rx_errors(&mut self, value: u8)
        ensures
            final(self).addr_word() == old(self).addr_word(),
            final(self).rx_fields() == (RxFields {
                special: old(self).rx_fields().special,
                errors: value,
                status: old(self).rx_fields().status,
                chksum: old(self).rx_fields().chksum,
                length: old(self).rx_fields().length,
            }),
            final(self).fields_word() & 0xffff00ff_ffffffff == old(self).fields_word() & 0xffff00ff_ffffffff,
    {
        let mut fields = self.fields.read();
        let ghost ow = fields;
        fields &= 0xffff00ff_ffffffff;
        fields |= (value as u64) << 40;
        let ghost nw = fields;
        assert({
            &&& (nw >> 48) as u16 == (ow >> 48) as u16
            &&& (nw >> 40) as u8 == value
            &&& (nw >> 32) as u8 == (ow >> 32) as u8
            &&& (nw >> 16) as u16 == (ow >> 16) as u16
            &&& nw as u16 == ow as u16
            &&& nw & 0xffff00ff_ffffffff == ow & 0xffff00ff_ffffffff
        }) by (bit_vector)
            requires
                nw == (ow & 0xffff00ff_ffffffff) | ((value as u64) << 40),
        ;
        self.fields.write(fields);
    }

    /// Writes the receive status byte (bits 32..39 of the second word),
    /// keeping every other bit.
    pub fn set_rx_status(&mut self, value: u8)
        ensures
            final(self).addr_word() == old(self).addr_word(),
            final(self).rx_fields() == (RxFields {
                special: old(self).rx_fields().special,
                errors: old(self).rx_fields().errors,
                status: value,
                chksum: old(self).rx_fields().chksum,
                length: old(self).rx_fields().length,
            }),
            final(self).fields_word() & 0xffffff00_ffffffff == old(self).fields_word() & 0xffffff00_ffffffff,
    {
        let mut fields = self.fields.read();
        let ghost ow = fields;
        fields &= 0xffffff00_ffffffff;
        fields |= (value as u64) << 32;
        let ghost nw = fields;
        assert({
            &&& (nw >> 48) as u16 == (ow >> 48) as u16
            &&& (nw >> 40) as u8 == (ow >> 40) as u8
            &&& (nw >> 32) as u8 == value
            &&& (nw >> 16) as u16 == (ow >> 16) as u16
            &&& nw as u16 == ow as u16
            &&& nw & 0xffffff00_ffffffff == ow & 0xffffff00_ffffffff
        }) by (bit_vector)
            requires
                nw == (ow & 0xffffff00_ffffffff) | ((value as u64) << 32),
        ;
        self.fields.write(fields);
    }

    /// Writes the receive packet checksum field (bits 16..31 of the second word),
    /// keeping every other bit.
    pub fn set_rx_chksum(&mut self, value: u16)
        ensures
            final(self).addr_word() == old(self).addr_word(),
            final(self).rx_fields() == (RxFields {
                special: old(self).rx_fields().special,
                errors: old(self).rx_fields().errors,
                status: old(self).rx_fields().status,
                chksum: value,
                length: old(self).rx_fields().length,
            }),
            final(self).fields_word() & 0xffffffff_0000ffff == old(self).fields_word() & 0xffffffff_0000ffff,
    {
        let mut fields = self.fields.read();
        let ghost ow = fields;
        fields &= 0xffffffff_0000ffff;
        fields |= (value as u64) << 16;
        let ghost nw = fields;
        assert({
            &&& (nw >> 48) as u16 == (ow >> 48) as u16
            &&& (nw >> 40) as u8 == (ow >> 40) as u8
            &&& (nw >> 32) as u8 == (ow >> 32) as u8
            &&& (nw >> 16) as u16 == value
            &&& nw as u16 == ow as u16
            &&& nw & 0xffffffff_0000ffff == ow & 0xffffffff_0000ffff
        }) by (bit_vector)
            requires
                nw == (ow & 0xffffffff_0000ffff) | ((value as u64) << 16),
        ;
        self.fields.write(fields);
    }

    /// Writes the receive length field (bits 0..15 of the second word),
    /// keeping every other bit.
    pub fn set_rx_length(&mut self, value: u16)
        ensures
            final(self).addr_word() == old(self).addr_word(),
            final(self).rx_fields() == (RxFields {
                special: old(self).rx_fields().special,
                errors: old(self).rx_fields().errors,
                status: old(self).rx_fields().status,
                chksum: old(self).rx_fields().chksum,
                length: value,
            }),
            final(self).fields_word() & 0xffffffff_ffff0000 == old(self).fields_word() & 0xffffffff_ffff0000,
    {
        let mut fields = self.fields.read();
        let ghost ow = fields;
        fields &= 0xffffffff_ffff0000;
        fields |= value as u64;
        let ghost nw = fields;
        assert({
            &&& (nw >> 48) as u16 == (ow >> 48) as u16
            &&& (nw >> 40) as u8 == (ow >> 40) as u8
            &&& (nw >> 32) as u8 == (ow >> 32) as u8
            &&& (nw >> 16) as u16 == (ow >> 16) as u16
            &&& nw as u16 == value
            &&& nw & 0xffffffff_ffff0000 == ow & 0xffffffff_ffff0000
        }) by (bit_vector)
            requires
                nw == (ow & 0xffffffff_ffff0000) | (value as u64),
        ;
        self.fields.write(fields);
    }

    /// Reads the receive special field (bits 48..63 of the second word).
    pub fn get_rx_special(&self) -> (v: u16)
        ensures
            v == self.rx_fields().special,
    {
        let fields = self.fields.read();
        proof {
            lemma_masked_fields(fields);
        }
        ((fields & 0xffff0000_00000000) >> 48) as u16
    }

    /// Reads the receive errors byte (bits 40..47 of the second word).
    pub fn get_rx_errors(&self) -> (v: u8)
        ensures
            v == self.rx_fields().errors,
    {
        let fields = self.fields.read();
        proof {
            lemma_masked_fields(fields);
        }
        ((fields & 0x0000ff00_00000000) >> 40) as u8
    }

    /// Reads the receive status byte (bits 32..39 of the second word).
    pub fn get_rx_status(&self) -> (v: u8)
        ensures
            v == self.rx_fields().status,
    {
        let fields = self.fields.read();
        proof {
            lemma_masked_fields(fields);
        }
        ((fields & 0x000000ff_00000000) >> 32) as u8
    }

    /// Reads the receive packet checksum field (bits 16..31 of the second word).
    pub fn get_rx_chksum(&self) -> (v: u16)
        ensures
            v == self.rx_fields().chksum,
    {
        let fields = self.fields.read();
        proof {
            lemma_masked_fields(fields);
        }
        ((fields & 0x00000000_ffff0000) >> 16) as u16
    }

    /// Reads the receive length field (bits 0..15 of the second word).
    pub fn get_rx_length(&self) -> (v: u16)
        ensures
            v == self.rx_fields().length,
    {
        let fields = self.fields.read();
        proof {
            lemma_masked_fields(fields);
        }
        (fields & 0x00000000_0000ffff) as u16
    }

    /// Replaces the whole second word.
    pub fn set_fields(&mut self, value: u64)
        ensures
            final(self).addr_word() == old(self).addr_word(),
            final(self).fields_word() == value,
    {
        self.fields.write(value);
    }

    /// Reads the whole second word.
    pub fn read_fields(&self) -> (v: u64)
        ensures
            v == self.fields_word(),
    {
        self.fields.read()
    }

    /// Builds one ring of descriptors over a DMA area whose rings were cleared
    /// (bring-up clears both rings first, so every bit that is not set here is
    /// zero). Descriptor `i` lies at `descriptor_offset(.., i)` in the area and
    /// points at buffer `i` of the direction (its physical address); transmit
    /// descriptors are handed back to the driver (status 1), receive
    /// descriptors start with status, length and errors zero. Returned are the
    /// descriptors, the virtual address of each descriptor and the virtual
    /// address of each buffer. Fails with the area's error when there is a
    /// descriptor to build and the area is not backed.
    fn from(dma_manager: &DmaManager, dtype: DescType) -> (r: Result<(Vec<Descriptor>, Vec<usize>, Vec<usize>), Error>)
        requires
            ring_fits(dma_manager, dtype),
        ensures
            ring_built(dma_manager, dtype, r),
    {
        let info = dma_manager.info();
        let desc_count = info.desc_count() as usize;
        let mut descs: Vec<Descriptor> = Vec::with_capacity(desc_count);
        let mut bufs: Vec<usize> = Vec::with_capacity(desc_count);
        let mut addrs: Vec<usize> = Vec::with_capacity(desc_count);
        let ghost l = info@;
        proof {
            lemma_info_bounded(info);
            lemma_layout_bounds(l);
        }
        for i in 0..desc_count
            invariant
                desc_count == l.desc_count,
                l == dma_manager.layout(),
                info@ == l,
                ring_fits(dma_manager, dtype),
                l.buffers_len() <= 255 * 65535,
                l.dma_len() == 2 * l.ring_len() + 2 * l.buffers_len(),
                descs.len() == i,
                bufs.len() == i,
                addrs.len() == i,
                i > 0 ==> dma_manager.allocated(),
                forall|j: int|
                    0 <= j < i ==> #[trigger] addrs@[j] == dma_manager.vaddr() + descriptor_offset(
                        l,
                        dtype,
                        j,
                    ),
                forall|j: int|
                    0 <= j < i ==> built_descriptor(dma_manager, dtype, j, #[trigger] descs@[j]),
                forall|j: int|
                    0 <= j < i ==> #[trigger] bufs@[j] == dma_manager.vaddr() + buffer_offset(
                        l,
                        dtype,
                        j,
                    ),
        {
            proof {
                assert(i * l.buff_len + l.buff_len <= l.desc_count * l.buff_len) by (nonlinear_arith)
                    requires
                        i < l.desc_count,
                ;
                assert(buffer_offset(l, dtype, i as int) + l.buff_len <= l.dma_len());
                assert(descriptor_offset(l, dtype, i as int) + 16 <= l.dma_len());
                lemma_ring_offsets_grow(l, dtype, i as int, l.desc_count - 1);
            }
            let desc_addr = dma_manager.base_vaddr() + dtype.ring_offset(info) + (i * DESCRIPTOR_SIZE);
            let mut desc = Descriptor::zeroed();
            proof {
                lemma_zero_word_fields();
            }
            let paddr = dma_manager.base_paddr()?;
            desc.set_buff_address(
                (paddr + dtype.buff_offset(info) + (i * info.buff_len() as usize)) as u64,
            );
            match dtype {
                DescType::Tx => desc.set_tx_rsv_sta(1),
                DescType::Rx => {
                    desc.set_rx_status(0);
                    desc.set_rx_length(0);
                    desc.set_rx_errors(0);
                },
            }
            proof {
                lemma_fields_of_word(
                    TxFields { special: 0, css: 0, rsv_sta: 1, cmd: 0, cso: 0, length: 0 },
                    RxFields { special: 0, errors: 0, status: 0, chksum: 0, length: 0 },
                );
                lemma_tx_fields_determine_word(desc.fields_word());
                lemma_rx_fields_determine_word(desc.fields_word());
                assert(rx_word(RxFields { special: 0, errors: 0, status: 0, chksum: 0, length: 0 })
                    == 0) by (bit_vector);
                match dtype {
                    DescType::Tx => assert(desc.fields_word() == initial_fields_word(dtype)),
                    DescType::Rx => assert(desc.fields_word() == initial_fields_word(dtype)),
                }
                assert(built_descriptor(dma_manager, dtype, i as int, desc));
            }
            descs.push(desc);
            addrs.push(desc_addr);
            bufs.push(dma_manager.base_vaddr() + dtype.buff_offset(info) + (i * info.buff_len() as usize));
        }
        Ok((descs, addrs, bufs))
    }

    /// The transmit ring of an area (see `from`).
    pub fn tx_from(dma_manager: &DmaManager) -> (r: Result<(Vec<Descriptor>, Vec<usize>, Vec<usize>), Error>)
        requires
            ring_fits(dma_manager, DescType::Tx),
        ensures
            ring_built(dma_manager, DescType::Tx, r),
    {
        Self::from(dma_manager, DescType::Tx)
    }

    /// The receive ring of an area (see `from`).
    pub fn rx_from(dma_manager: &DmaManager) -> (r: Result<(Vec<Descriptor>, Vec<usize>, Vec<usize>), Error>)
        requires
            ring_fits(dma_manager, DescType::Rx),
        ensures
            ring_built(dma_manager, DescType::Rx, r),
    {
        Self::from(dma_manager, DescType::Rx)
    }
}

/// Whether the addresses that building a ring of `dtype` over `m` computes fit
/// in a `usize`: where the area is backed, the virtual address of the last
/// descriptor and the physical and virtual addresses of the last buffer;
/// where it is not, the virtual address of the first descriptor, computed
/// before the area is found unbacked. An empty ring computes none.
pub open spec fn ring_fits(m: &DmaManager, dtype: DescType) -> bool {
    let l = m.layout();
    let last = l.desc_count - 1;
    l.desc_count > 0 ==> if m.allocated() {
        &&& m.vaddr() + descriptor_offset(l, dtype, last) <= usize::MAX
        &&& m.paddr()->Ok_0 + buffer_offset(l, dtype, last) <= usize::MAX
        &&& m.vaddr() + buffer_offset(l, dtype, last) <= usize::MAX
    } else {
        m.vaddr() + descriptor_offset(l, dtype, 0) <= usize::MAX
    }
}

/// Descriptor and buffer offsets grow with the index.
pub proof fn lemma_ring_offsets_grow(l: DmaLayout, dtype: DescType, i: int, j: int)
    requires
        0 <= i <= j,
    ensures
        descriptor_offset(l, dtype, i) <= descriptor_offset(l, dtype, j),
        buffer_offset(l, dtype, i) <= buffer_offset(l, dtype, j),
{
    assert(i * l.buff_len <= j * l.buff_len) by (nonlinear_arith)
        requires
            0 <= i <= j,
            l.buff_len >= 0,
    ;
}

/// Each descriptor of a ring built over an area holds the full physical
/// address of the buffer of its index: the area's physical base plus the
/// buffer's offset in the area, with no bit of it dropped.
pub proof fn lemma_built_ring_holds_buffer_addresses(
    m: &DmaManager,
    dtype: DescType,
    r: Result<(Vec<Descriptor>, Vec<usize>, Vec<usize>), Error>,
)
    requires
        ring_fits(m, dtype),
        ring_built(m, dtype, r),
        r is Ok,
    ensures
        forall|j: int|
            0 <= j < r->Ok_0.0.len() ==> (#[trigger] r->Ok_0.0@[j]).addr_word() == m.paddr()->Ok_0
                + buffer_offset(m.layout(), dtype, j),
{
    let descs = r->Ok_0.0;
    let l = m.layout();
    assert forall|j: int| 0 <= j < descs.len() implies (#[trigger] descs@[j]).addr_word()
        == m.paddr()->Ok_0 + buffer_offset(l, dtype, j) by {
        assert(built_descriptor(m, dtype, j, descs@[j]));
        lemma_ring_offsets_grow(l, dtype, j, l.desc_count - 1);
    }
}

/// The second word of a freshly built descriptor of the given direction.
pub open spec fn initial_fields_word(dtype: DescType) -> u64 {
    match dtype {
        DescType::Tx => tx_word(TxFields { special: 0, css: 0, rsv_sta: 1, cmd: 0, cso: 0, length: 0 }),
        DescType::Rx => 0,
    }
}

/// Descriptor `i` of a freshly built ring: it points at the physical address
/// of buffer `i`, and its second word is the direction's initial word.
pub open spec fn built_descriptor(m: &DmaManager, dtype: DescType, i: int, d: Descriptor) -> bool {
    &&& m.allocated()
    &&& d.addr_word() == (m.paddr()->Ok_0 + buffer_offset(m.layout(), dtype, i)) as u64
    &&& d.fields_word() == initial_fields_word(dtype)
}

/// What building a ring of the given direction yields.
pub open spec fn ring_built(
    m: &DmaManager,
    dtype: DescType,
    r: Result<(Vec<Descriptor>, Vec<usize>, Vec<usize>), Error>,
) -> bool {
    match r {
        Ok((descs, addrs, bufs)) => {
            &&& (m.layout().desc_count > 0 ==> m.allocated())
            &&& descs.len() == m.layout().desc_count
            &&& addrs.len() == m.layout().desc_count
            &&& bufs.len() == m.layout().desc_count
            &&& forall|j: int|
                0 <= j < addrs.len() ==> #[trigger] addrs@[j] == m.vaddr() + descriptor_offset(
                    m.layout(),
                    dtype,
                    j,
                )
            &&& forall|j: int|
                0 <= j < descs.len() ==> built_descriptor(m, dtype, j, #[trigger] descs@[j])
            &&& forall|j: int|
                0 <= j < bufs.len() ==> #[trigger] bufs@[j] == m.vaddr() + buffer_offset(
                    m.layout(),
                    dtype,
                    j,
                )
        },
        Err(e) => m.layout().desc_count > 0 && m.paddr() == Err::<usize, Error>(e),
    }
}

} // verus!
