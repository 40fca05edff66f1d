//! The layout of the daemon's DMA area: the transmit ring, the receive ring,
//! the transmit buffers and the receive buffers, one after the other.

use vstd::prelude::*;

verus! {

/// Size in bytes of one descriptor.
pub const DESCRIPTOR_SIZE: usize = 16;

/// The shape of a DMA area, as mathematical numbers.
pub ghost struct DmaLayout {
    /// Descriptors in each ring.
    pub desc_count: nat,
    /// Bytes in each buffer.
    pub buff_len: nat,
}

impl DmaLayout {
    /// Bytes taken by one ring of descriptors.
    pub open spec fn ring_len(self) -> nat {
        self.desc_count * DESCRIPTOR_SIZE as nat
    }

    /// Bytes taken by the buffers of one direction.
    pub open spec fn buffers_len(self) -> nat {
        self.desc_count * self.buff_len
    }

    /// Bytes of the whole area: two rings and two sets of buffers.
    pub open spec fn dma_len(self) -> nat {
        2 * self.desc_count * (DESCRIPTOR_SIZE as nat + self.buff_len)
    }

    pub open spec fn tx_ring_offset(self) -> nat {
        0
    }

    pub open spec fn rx_ring_offset(self) -> nat {
        self.ring_len()
    }

    pub open spec fn tx_buff_offset(self) -> nat {
        2 * self.ring_len()
    }

    pub open spec fn rx_buff_offset(self) -> nat {
        2 * self.ring_len() + self.buffers_len()
    }
}

/// The layout parameters of a DMA area.
pub struct DmaInfo {
    desc_count: u8,
    buff_len: u16,
}

impl View for DmaInfo {
    type V = DmaLayout;

    closed spec fn view(&self) -> DmaLayout {
        DmaLayout { desc_count: self.desc_count as nat, buff_len: self.buff_len as nat }
    }
}

impl DmaInfo {
    pub fn new(desc_count: u8, buff_len: u16) -> (info: Self)
        ensures
            info@.desc_count == desc_count,
            info@.buff_len == buff_len,
    {
        Self { desc_count: desc_count, buff_len: buff_len }
    }

    /// Number of descriptors of the same type.
    pub fn desc_count(&self) -> (n: u8)
        ensures
            n == self@.desc_count,
    {
        self.desc_count
    }

    pub fn buff_len(&self) -> (n: u16)
        ensures
            n == self@.buff_len,
    {
        self.buff_len
    }

    pub fn dma_len(&self) -> (n: usize)
        ensures
            n == self@.dma_len(),
    {
        proof {
            lemma_layout_bounds(self@);
        }
        2 * (self.desc_count() as usize) * (DESCRIPTOR_SIZE + (self.buff_len() as usize))
    }

    pub fn ring_len(&self) -> (n: usize)
        ensures
            n == self@.ring_len(),
    {
        (self.desc_count() as usize) * DESCRIPTOR_SIZE
    }

    pub fn tx_ring_offset(&self) -> (n: usize)
        ensures
            n == self@.tx_ring_offset(),
    {
        0
    }

    pub fn rx_ring_offset(&self) -> (n: usize)
        ensures
            n == self@.rx_ring_offset(),
    {
        self.tx_ring_offset() + self.ring_len()
    }

    pub fn tx_buff_offset(&self) -> (n: usize)
        ensures
            n == self@.tx_buff_offset(),
    {
        self.rx_ring_offset() + self.ring_len()
    }

    pub fn rx_buff_offset(&self) -> (n: usize)
        ensures
            n == self@.rx_buff_offset(),
    {
        proof {
            lemma_layout_bounds(self@);
        }
        self.tx_buff_offset() + (self.buff_len() as usize) * (self.desc_count() as usize)
    }
}

/// Every quantity of a layout built from a `u8` count and a `u16` length stays
/// far below 2^32, so it fits in any `usize`.
pub proof fn lemma_layout_bounds(l: DmaLayout)
    requires
        l.desc_count < 256,
        l.buff_len < 65536,
    ensures
        l.buffers_len() <= 255 * 65535,
        l.buff_len * l.desc_count == l.buffers_len(),
        l.dma_len() <= 2 * 255 * (16 + 65535),
        l.dma_len() == 2 * l.ring_len() + 2 * l.buffers_len(),
{
    assert(l.desc_count * l.buff_len <= 255 * 65535) by (nonlinear_arith)
        requires
            l.desc_count < 256,
            l.buff_len < 65536,
    ;
    assert(l.buff_len * l.desc_count == l.desc_count * l.buff_len) by (nonlinear_arith);
    assert(2 * l.desc_count * (16 + l.buff_len) == 2 * (l.desc_count * 16) + 2 * (l.desc_count
        * l.buff_len)) by (nonlinear_arith);
    assert(l.desc_count * 16 <= 255 * 16) by (nonlinear_arith)
        requires
            l.desc_count < 256,
    ;
    assert(l.ring_len() == l.desc_count * 16);
    assert(2 * l.desc_count * (16 + l.buff_len) <= 2 * 255 * (16 + 65535)) by (nonlinear_arith)
        requires
            l.desc_count < 256,
            l.buff_len < 65536,
    ;
}

/// A layout read from a `DmaInfo` has a count below 256 and buffers shorter
/// than 65536 bytes.
pub proof fn lemma_info_bounded(info: &DmaInfo)
    ensures
        info@.desc_count < 256,
        info@.buff_len < 65536,
{
}

/// The four regions of a DMA area follow one another without gap or overlap,
/// in the order transmit ring, receive ring, transmit buffers, receive
/// buffers, and together they fill exactly `dma_len` bytes.
pub proof fn lemma_layout_tiles(info: DmaInfo)
    ensures
        info@.tx_ring_offset() == 0,
        info@.rx_ring_offset() == info@.tx_ring_offset() + info@.ring_len(),
        info@.tx_buff_offset() == info@.rx_ring_offset() + info@.ring_len(),
        info@.rx_buff_offset() == info@.tx_buff_offset() + info@.buffers_len(),
        info@.rx_buff_offset() + info@.buffers_len() == info@.dma_len(),
{
    lemma_layout_bounds(info@);
}

} // verus!
