//! The e1000 driver of the network library: fixed rings of 256 descriptors,
//! 2048-byte buffers, and a register window of `REG_COUNT` words.
//!
//! The register window and the four DMA regions are held as values: the words
//! of the window, the descriptors of each ring and the bytes of each buffer
//! area. The kernel functions that back the regions are the caller's.

use vstd::prelude::*;
use crate::error::{Error, ErrorCode};
use crate::memory::{copy_into, copy_out, lemma_written_bytes_read_back, write_bytes};

verus! {

pub const PAGE_SIZE: usize = 4096;
pub const TX_RING_SIZE: usize = 256;
pub const RX_RING_SIZE: usize = 256;
pub const MBUF_SIZE: usize = 2048;
pub const ETHERNET_MTU: usize = 1514;
/// Size in bytes of a transmit or receive descriptor.
pub const DESC_SIZE: usize = 16;
/// Number of 32-bit registers in the register window.
pub const REG_COUNT: usize = 0x20_000 / 4;

pub const TX_RING_PAGES: usize = (TX_RING_SIZE * DESC_SIZE + PAGE_SIZE - 1) / PAGE_SIZE;
pub const RX_RING_PAGES: usize = (RX_RING_SIZE * DESC_SIZE + PAGE_SIZE - 1) / PAGE_SIZE;
pub const TX_BUFFER_PAGES: usize = (TX_RING_SIZE * MBUF_SIZE + PAGE_SIZE - 1) / PAGE_SIZE;
pub const RX_BUFFER_PAGES: usize = (RX_RING_SIZE * MBUF_SIZE + PAGE_SIZE - 1) / PAGE_SIZE;

/* Registers */
pub const E1000_CTL: usize = 0x00000 / 4;
pub const E1000_STAT: usize = 0x00008 / 4;
pub const E1000_ITR: usize = 0x000C4 / 4;
pub const E1000_IMS: usize = 0x000D0 / 4;
pub const E1000_RCTL: usize = 0x00100 / 4;
pub const E1000_TCTL: usize = 0x00400 / 4;
pub const E1000_TIPG: usize = 0x00410 / 4;
pub const E1000_RDBAL: usize = 0x02800 / 4;
pub const E1000_RDBAH: usize = 0x02804 / 4;
pub const E1000_RDLEN: usize = 0x02808 / 4;
pub const E1000_RDH: usize = 0x02810 / 4;
pub const E1000_RDT: usize = 0x02818 / 4;
pub const E1000_RDTR: usize = 0x02820 / 4;
pub const E1000_RADV: usize = 0x0282C / 4;
pub const E1000_TDBAL: usize = 0x03800 / 4;
pub const E1000_TDBAH: usize = 0x03804 / 4;
pub const E1000_TDLEN: usize = 0x03808 / 4;
pub const E1000_TDH: usize = 0x03810 / 4;
pub const E1000_TDT: usize = 0x03818 / 4;
pub const E1000_TIDV: usize = 0x03820 / 4;
pub const E1000_TADV: usize = 0x0382C / 4;
pub const E1000_RFCTL: usize = 0x05008 / 4;
pub const E1000_MTA: usize = 0x05200 / 4;
pub const E1000_RA: usize = 0x05400 / 4;

/* Device control */
pub const E1000_CTL_SLU: u32 = 0x00000040;
pub const E1000_CTL_RST: u32 = 1 << 26;

/* Transmit control */
pub const E1000_TCTL_EN: u32 = 0x00000002;
pub const E1000_TCTL_PSP: u32 = 0x00000008;
pub const E1000_TCTL_CT_SHIFT: u32 = 4;
pub const E1000_TCTL_COLD_SHIFT: u32 = 12;

/* Receive control */
pub const E1000_RCTL_EN: u32 = 0x00000002;
pub const E1000_RCTL_BAM: u32 = 0x00008000;
pub const E1000_RCTL_SZ_2048: u32 = 0x00000000;
pub const E1000_RCTL_SECRC: u32 = 0x04000000;

/* Descriptor bits */
pub const E1000_TXD_CMD_EOP: u32 = 0x01;
pub const E1000_TXD_CMD_RS: u32 = 0x08;
pub const E1000_TXD_STAT_DD: u8 = 0x01;
pub const E1000_RXD_STAT_DD: u8 = 0x01;
pub const E1000_RXD_STAT_EOP: u8 = 0x02;

/// The transmit control word: enable, pad short packets, collision threshold
/// 0x10, collision distance 0x40.
pub const TCTL_VALUE: u32 = E1000_TCTL_EN | E1000_TCTL_PSP | (0x10 << E1000_TCTL_CT_SHIFT) | (0x40
    << E1000_TCTL_COLD_SHIFT);
/// The inter-packet gap word.
pub const TIPG_VALUE: u32 = 10 | (8 << 10) | (6 << 20);
/// The receive control word: enable, broadcast, 2048-byte buffers, strip CRC,
/// descriptor minimum threshold bits cleared.
pub const RCTL_VALUE: u32 = (E1000_RCTL_EN | E1000_RCTL_BAM | E1000_RCTL_SZ_2048 | E1000_RCTL_SECRC)
    & !(0b11 << 10);

/// A legacy transmit descriptor.
#[derive(Debug, Copy, Clone)]
pub struct TxDesc {
    pub addr: u64,
    pub length: u16,
    pub cso: u8,
    pub cmd: u8,
    pub status: u8,
    pub css: u8,
    pub special: u16,
}

impl TxDesc {
    /// A descriptor whose fields are all zero.
    pub fn empty() -> (d: Self)
        ensures
            d == (TxDesc { addr: 0, length: 0, cso: 0, cmd: 0, status: 0, css: 0, special: 0 }),
    {
        Self { addr: 0, length: 0, cso: 0, cmd: 0, status: 0, css: 0, special: 0 }
    }
}

/// A legacy receive descriptor.
#[derive(Debug, Copy, Clone)]
pub struct RxDesc {
    pub addr: u64,
    pub length: u16,
    pub csum: u16,
    pub status: u8,
    pub errors: u8,
    pub special: u16,
}

impl RxDesc {
    /// A descriptor whose fields are all zero.
    pub fn empty() -> (d: Self)
        ensures
            d == (RxDesc { addr: 0, length: 0, csum: 0, status: 0, errors: 0, special: 0 }),
    {
        Self { addr: 0, length: 0, csum: 0, status: 0, errors: 0, special: 0 }
    }
}

/// A request that the driver made of the kernel.
pub ghost enum DmaCall {
    /// `dma_alloc(pages)`, and the kernel's answer `(vaddr, dma_addr)`.
    Alloc { pages: usize, answer: (usize, usize) },
    /// `dma_free(vaddr, pages)`.
    Free { vaddr: usize, pages: usize },
}

/// What the kernel offers the driver: DMA memory.
///
/// An implementation may keep, as `calls`, the requests made through it so
/// far, and say so through `keeps_call_log`; each method then adds its own
/// request at the end. An implementation that does not (the default) is held
/// to nothing; wrapped in `CallLog`, it gets such a log.
pub trait KernelFunctions {
    /// Size in bytes of the pages that `dma_alloc` counts.
    const PAGE_SIZE: usize = PAGE_SIZE;

    /// Whether this implementation keeps the log of requests `calls`.
    open spec fn keeps_call_log() -> bool {
        false
    }

    /// The requests made through this value so far, oldest first.
    open spec fn calls(&self) -> Seq<DmaCall> {
        Seq::empty()
    }

    /// Allocates `pages` pages of physically contiguous DMA memory.
    ///
    /// Returns `(virtual_address, dma_address)`; either is zero on failure.
    fn dma_alloc(&mut self, pages: usize) -> (answer: (usize, usize))
        ensures
            Self::keeps_call_log() ==> final(self).calls() == old(self).calls().push(
                DmaCall::Alloc { pages, answer },
            ),
    ;

    /// Frees DMA memory allocated at `vaddr`.
    fn dma_free(&mut self, vaddr: usize, pages: usize)
        ensures
            Self::keeps_call_log() ==> final(self).calls() == old(self).calls().push(
                DmaCall::Free { vaddr, pages },
            ),
    ;
}

/// Kernel functions `inner`, with the log of the requests made through them
/// kept beside them: any kernel functions, wrapped, keep a call log.
pub struct CallLog<K: KernelFunctions> {
    inner: K,
    log: Ghost<Seq<DmaCall>>,
}

impl<K: KernelFunctions> CallLog<K> {
    /// The wrapped kernel functions.
    pub closed spec fn inner(&self) -> K {
        self.inner
    }

    /// Wraps `inner`, with no request logged yet.
    pub fn new(inner: K) -> (k: Self)
        ensures
            k.inner() == inner,
            k.calls() == Seq::<DmaCall>::empty(),
    {
        CallLog { inner, log: Ghost(Seq::empty()) }
    }

    /// The wrapped kernel functions, as the requests left them.
    pub fn into_inner(self) -> (inner: K)
        ensures
            inner == self.inner(),
    {
        self.inner
    }
}

impl<K: KernelFunctions> KernelFunctions for CallLog<K> {
    open spec fn keeps_call_log() -> bool {
        true
    }

    closed spec fn calls(&self) -> Seq<DmaCall> {
        self.log@
    }

    /// Hands the request to the wrapped kernel functions and logs it with
    /// their answer.
    fn dma_alloc(&mut self, pages: usize) -> (answer: (usize, usize))
        ensures
            K::keeps_call_log() ==> final(self).inner().calls() == old(self).inner().calls().push(
                DmaCall::Alloc { pages, answer },
            ),
    {
        let answer = self.inner.dma_alloc(pages);
        self.log = Ghost(self.log@.push(DmaCall::Alloc { pages, answer }));
        answer
    }

    /// Hands the request to the wrapped kernel functions and logs it.
    fn dma_free(&mut self, vaddr: usize, pages: usize)
        ensures
            K::keeps_call_log() ==> final(self).inner().calls() == old(self).inner().calls().push(
                DmaCall::Free { vaddr, pages },
            ),
    {
        self.inner.dma_free(vaddr, pages);
        self.log = Ghost(self.log@.push(DmaCall::Free { vaddr, pages }));
    }
}

/// A region of DMA memory: where the driver sees it, where the card sees it,
/// and its size in pages.
#[derive(Debug, Copy, Clone)]
pub struct DmaRegion {
    pub vaddr: usize,
    pub dma_addr: usize,
    pub pages: usize,
}

impl DmaRegion {
    pub fn new(vaddr: usize, dma_addr: usize, pages: usize) -> (r: Self)
        ensures
            r == (DmaRegion { vaddr, dma_addr, pages }),
    {
        Self { vaddr, dma_addr, pages }
    }

    /// The region that the kernel's answer `(vaddr, dma_addr)` to a request
    /// for `pages` pages describes; a zero address means the kernel had no
    /// memory, reported with `reason`.
    pub fn from_allocation(vaddr: usize, dma_addr: usize, pages: usize, reason: &'static str) -> (r:
        Result<DmaRegion, Error>)
        ensures
            r == if vaddr == 0 || dma_addr == 0 {
                Err::<DmaRegion, Error>(Error { code: ErrorCode::OutOfMemory, reason })
            } else {
                Ok::<DmaRegion, Error>(DmaRegion { vaddr, dma_addr, pages })
            },
    {
        if vaddr == 0 || dma_addr == 0 {
            return Err(Error::new(ErrorCode::OutOfMemory, reason));
        }
        Ok(DmaRegion::new(vaddr, dma_addr, pages))
    }
}

/// A received frame, waiting to be consumed.
pub struct E1000RxToken {
    buffer: Vec<u8>,
}

impl E1000RxToken {
    /// The frame's bytes.
    pub closed spec fn frame(&self) -> Seq<u8> {
        self.buffer@
    }

    /// A token for the frame `buffer`.
    pub fn new(buffer: Vec<u8>) -> (t: Self)
        ensures
            t.frame() == buffer@,
    {
        E1000RxToken { buffer }
    }

    /// Hands the frame to `f` and returns what `f` returns.
    pub fn consume<R, F: FnOnce(&[u8]) -> R>(self, f: F) -> (r: R)
        requires
            forall|s: &[u8]| s@ == self.frame() ==> call_requires(f, (s,)),
        ensures
            exists|s: &[u8]| s@ == self.frame() && call_ensures(f, (s,), r),
    {
        f(self.buffer.as_slice())
    }
}

/// The DMA address of buffer `i` of a buffer region based at `base`, as the
/// descriptor stores it: the address sum wraps around like a `usize`.
pub open spec fn buffer_dma(base: usize, i: int) -> u64 {
    vstd::wrapping::usize_specs::wrapping_add(base, (i * MBUF_SIZE) as usize) as u64
}

/// The upper half of a DMA address, as the card's high base registers take
/// it: the address shifted right by 32 bits, wrapping the shift on a 32-bit
/// `usize`.
pub open spec fn high_dword(addr: usize) -> u32 {
    vstd::wrapping::usize_specs::wrapping_shr(addr, 32) as u32
}

/// The MAC address that a receive address register pair holds, low byte first.
pub open spec fn mac_of_ra(ral: u32, rah: u32) -> Seq<u8> {
    seq![ral as u8, (ral >> 8) as u8, (ral >> 16) as u8, (ral >> 24) as u8, rah as u8, (rah >> 8) as u8]
}

/// The low receive address word for a MAC address.
pub open spec fn ral_of_mac(a: Seq<u8>) -> u32 {
    (a[0] as u32) | ((a[1] as u32) << 8) | ((a[2] as u32) << 16) | ((a[3] as u32) << 24)
}

/// The high receive address word for a MAC address, with the valid bit set.
pub open spec fn rah_of_mac(a: Seq<u8>) -> u32 {
    (a[4] as u32) | ((a[5] as u32) << 8) | (1u32 << 31)
}

/// The address that `set_hardware_addr` writes into the receive address
/// registers is the one that `init` reads back from them.
pub proof fn lemma_mac_round_trip(a: Seq<u8>)
    requires
        a.len() == 6,
    ensures
        mac_of_ra(ral_of_mac(a), rah_of_mac(a)) == a,
{
    let (b0, b1, b2, b3, b4, b5) = (a[0], a[1], a[2], a[3], a[4], a[5]);
    assert({
        let ral = (b0 as u32) | ((b1 as u32) << 8) | ((b2 as u32) << 16) | ((b3 as u32) << 24);
        let rah = (b4 as u32) | ((b5 as u32) << 8) | (1u32 << 31);
        &&& ral as u8 == b0
        &&& (ral >> 8) as u8 == b1
        &&& (ral >> 16) as u8 == b2
        &&& (ral >> 24) as u8 == b3
        &&& rah as u8 == b4
        &&& (rah >> 8) as u8 == b5
    }) by (bit_vector);
    assert(mac_of_ra(ral_of_mac(a), rah_of_mac(a)) =~= a);
}

/// The device after `init`: the register window as `init_image` leaves it,
/// and the MAC address read from the receive address registers.
pub open spec fn after_init(v: E1000View) -> E1000View {
    E1000View {
        regs: init_image(v.regs, v.tx_ring_region.dma_addr, v.rx_ring_region.dma_addr),
        mac: mac_of_ra(v.regs[E1000_RA as int], v.regs[E1000_RA + 1]),
        ..v
    }
}

/// The device after `set_hardware_addr(a)`: `a` in the receive address
/// registers, marked valid, and as the device's MAC address.
pub open spec fn after_set_hardware_addr(v: E1000View, a: Seq<u8>) -> E1000View {
    E1000View {
        regs: v.regs.update(E1000_RA as int, ral_of_mac(a)).update(E1000_RA + 1, rah_of_mac(a)),
        mac: a,
        ..v
    }
}

/// An address set with `set_hardware_addr` is the one that a later `init`
/// reads back from the receive address registers: the device keeps it as its
/// MAC address, whatever the device held before.
pub proof fn lemma_set_then_init_reads_back(v: E1000View, a: Seq<u8>)
    requires
        a.len() == 6,
        v.regs.len() == REG_COUNT,
    ensures
        after_init(after_set_hardware_addr(v, a)).mac == a,
{
    lemma_mac_round_trip(a);
}

/// After `init` the card's base registers name the DMA addresses of the ring
/// regions that the kernel handed out (the high half only where `usize` has
/// 64 bits, as the high half is the address shifted by 32 bits), and the ring
/// lengths the card is given fit in those regions.
pub proof fn lemma_init_points_card_at_ring_regions(v: E1000View)
    requires
        v.regs.len() == REG_COUNT,
        v.tx_ring_region.pages == TX_RING_PAGES,
        v.rx_ring_region.pages == RX_RING_PAGES,
    ensures
        after_init(v).regs[E1000_TDBAL as int] == v.tx_ring_region.dma_addr as u32,
        after_init(v).regs[E1000_RDBAL as int] == v.rx_ring_region.dma_addr as u32,
        usize::BITS == 64 ==> ((after_init(v).regs[E1000_TDBAH as int] as u64) << 32u64)
            | (after_init(v).regs[E1000_TDBAL as int] as u64) == v.tx_ring_region.dma_addr as u64,
        usize::BITS == 64 ==> ((after_init(v).regs[E1000_RDBAH as int] as u64) << 32u64)
            | (after_init(v).regs[E1000_RDBAL as int] as u64) == v.rx_ring_region.dma_addr as u64,
        after_init(v).regs[E1000_TDLEN as int] <= v.tx_ring_region.pages * PAGE_SIZE,
        after_init(v).regs[E1000_RDLEN as int] <= v.rx_ring_region.pages * PAGE_SIZE,
{
    let t = v.tx_ring_region.dma_addr;
    let r = v.rx_ring_region.dma_addr;
    assert(usize::BITS == 64 ==> ((vstd::wrapping::usize_specs::wrapping_shr(t, 32) as u32 as u64) << 32u64)
        | (t as u32 as u64) == t as u64) by (bit_vector);
    assert(usize::BITS == 64 ==> ((vstd::wrapping::usize_specs::wrapping_shr(r, 32) as u32 as u64) << 32u64)
        | (r as u32 as u64) == r as u64) by (bit_vector);
}

/// `init` clears the whole 4096-bit multicast table: all 128 words from
/// `E1000_MTA` on read zero afterwards, whatever they held.
pub proof fn lemma_init_clears_multicast_table(v: E1000View)
    requires
        v.regs.len() == REG_COUNT,
    ensures
        forall|k: int| E1000_MTA <= k < E1000_MTA + 128 ==> #[trigger] after_init(v).regs[k] == 0,
{
}

/// After `init` both rings start empty in the way the driver reads them: the
/// transmit head and tail are both at descriptor 0, the receive head is the
/// descriptor right after the receive tail (the last of the ring), and each
/// length register holds the bytes of a whole ring of 16-byte descriptors.
pub proof fn lemma_init_heads_follow_tails(v: E1000View)
    requires
        v.regs.len() == REG_COUNT,
    ensures
        after_init(v).regs[E1000_TDH as int] == 0,
        after_init(v).regs[E1000_TDT as int] == 0,
        after_init(v).regs[E1000_RDH as int] == 0,
        after_init(v).regs[E1000_RDT as int] == 255,
        after_init(v).regs[E1000_RDH as int] as int == (after_init(v).regs[E1000_RDT as int] + 1)
            % 256,
        after_init(v).regs[E1000_TDLEN as int] == 256 * 16,
        after_init(v).regs[E1000_RDLEN as int] == 256 * 16,
{
}

/// A device fresh from `new` owns every transmit descriptor (each is marked
/// done, with nothing queued in it) and hands every receive descriptor to the
/// card empty (no status, no length, no errors).
pub proof fn lemma_new_device_rings_ready(
    regs: Seq<u32>,
    tx_ring: DmaRegion,
    rx_ring: DmaRegion,
    tx_buffers: DmaRegion,
    rx_buffers: DmaRegion,
    calls: Seq<DmaCall>,
)
    ensures
        forall|i: int|
            0 <= i < 256 ==> {
                let d = #[trigger] initial_view(regs, tx_ring, rx_ring, tx_buffers, rx_buffers, calls).tx_ring[i];
                d.status & 1 == 1 && d.length == 0 && d.cmd == 0
            },
        forall|i: int|
            0 <= i < 256 ==> {
                let d = #[trigger] initial_view(regs, tx_ring, rx_ring, tx_buffers, rx_buffers, calls).rx_ring[i];
                d.status == 0 && d.length == 0 && d.errors == 0
            },
{
    assert(1u8 & 1 == 1) by (bit_vector);
}

/// A packet that `transmit_frame` accepts is in the buffer that the tail
/// descriptor points at when the card reads it: the descriptor keeps its
/// buffer address, holds the packet's length, ends the packet and is the
/// card's (done bit clear), and the tail has moved past it.
pub proof fn lemma_transmitted_packet_reaches_card(v: E1000View, packet: Seq<u8>)
    requires
        v.tx_data.len() == TX_RING_SIZE * MBUF_SIZE,
        v.tx_ring.len() == TX_RING_SIZE,
        v.regs.len() == REG_COUNT,
        v.tdt() < TX_RING_SIZE,
        packet.len() <= MBUF_SIZE,
    ensures
        ({
            let i = v.tdt() as int;
            let w = after_transmit(v, packet);
            &&& w.tx_data.subrange(i * MBUF_SIZE, i * MBUF_SIZE + packet.len()) == packet
            &&& w.tx_ring[i].addr == v.tx_ring[i].addr
            &&& w.tx_ring[i].length == packet.len()
            &&& w.tx_ring[i].cmd & (E1000_TXD_CMD_EOP as u8) != 0
            &&& w.tx_ring[i].status & E1000_TXD_STAT_DD == 0
            &&& w.tdt() == (i + 1) % TX_RING_SIZE as int
        }),
{
    let i = v.tdt() as int;
    assert(i * MBUF_SIZE + packet.len() <= TX_RING_SIZE * MBUF_SIZE) by (nonlinear_arith)
        requires
            0 <= i < TX_RING_SIZE,
            packet.len() <= MBUF_SIZE,
    ;
    lemma_written_bytes_read_back(v.tx_data, i * MBUF_SIZE, packet);
    assert(((E1000_TXD_CMD_EOP | E1000_TXD_CMD_RS) as u8) & (E1000_TXD_CMD_EOP as u8) != 0)
        by (bit_vector);
    assert((0u8 & E1000_TXD_STAT_DD) == 0) by (bit_vector);
}

/// A frame that the card delivers into the descriptor after the receive tail,
/// with the descriptor done, ending a packet and holding the frame's length,
/// is exactly what `receive_frame` returns next; the ring then moves on to
/// the following descriptor.
pub proof fn lemma_delivered_frame_is_received(v: E1000View, desc: RxDesc, frame: Seq<u8>)
    requires
        v.rx_data.len() == RX_RING_SIZE * MBUF_SIZE,
        v.rx_ring.len() == RX_RING_SIZE,
        v.regs.len() == REG_COUNT,
        frame.len() <= MBUF_SIZE,
        desc.length == frame.len(),
        desc.status & E1000_RXD_STAT_DD != 0,
        desc.status & E1000_RXD_STAT_EOP != 0,
    ensures
        ({
            let i = next_rx(v);
            let w = card_delivered(v, i, desc, frame);
            &&& w.rx_ring[i].status & E1000_RXD_STAT_DD != 0
            &&& received_frame(w) == Some(frame)
            &&& after_receive(w).rdt() == i
            &&& next_rx(after_receive(w)) == (i + 1) % RX_RING_SIZE as int
        }),
{
    let i = next_rx(v);
    assert(i * MBUF_SIZE + frame.len() <= RX_RING_SIZE * MBUF_SIZE) by (nonlinear_arith)
        requires
            0 <= i < RX_RING_SIZE,
            frame.len() <= MBUF_SIZE,
    ;
    lemma_written_bytes_read_back(v.rx_data, i * MBUF_SIZE, frame);
}

/// Whether register index `k` lies in the multicast table.
pub open spec fn in_multicast_table(k: int) -> bool {
    E1000_MTA <= k < E1000_MTA + 128
}

/// The value that `init` leaves in register `k`, given the window before it
/// and the DMA addresses of the two rings; `None` for a register it does not
/// write.
pub open spec fn init_value(k: int, before: Seq<u32>, tx_ring_dma: usize, rx_ring_dma: usize) -> Option<u32> {
    if k == E1000_CTL {
        Some(before[E1000_CTL as int] | E1000_CTL_RST | E1000_CTL_SLU)
    } else if k == E1000_IMS {
        Some(0)
    } else if k == E1000_TCTL {
        Some(TCTL_VALUE)
    } else if k == E1000_TIPG {
        Some(TIPG_VALUE)
    } else if k == E1000_TDBAL {
        Some(tx_ring_dma as u32)
    } else if k == E1000_TDBAH {
        Some(high_dword(tx_ring_dma))
    } else if k == E1000_TDLEN {
        Some((TX_RING_SIZE * DESC_SIZE) as u32)
    } else if k == E1000_TDH || k == E1000_TDT || k == E1000_TIDV || k == E1000_TADV {
        Some(0)
    } else if k == E1000_RCTL {
        Some(RCTL_VALUE)
    } else if k == E1000_RFCTL {
        Some(0)
    } else if k == E1000_RDBAL {
        Some(rx_ring_dma as u32)
    } else if k == E1000_RDBAH {
        Some(high_dword(rx_ring_dma))
    } else if k == E1000_RDLEN {
        Some((RX_RING_SIZE * DESC_SIZE) as u32)
    } else if k == E1000_RDT {
        Some((RX_RING_SIZE - 1) as u32)
    } else if k == E1000_RDH || k == E1000_RDTR || k == E1000_RADV || k == E1000_ITR {
        Some(0)
    } else if in_multicast_table(k) {
        Some(0)
    } else {
        None
    }
}

/// The register window after `init`.
pub open spec fn init_image(before: Seq<u32>, tx_ring_dma: usize, rx_ring_dma: usize) -> Seq<u32> {
    Seq::new(
        before.len(),
        |k: int|
            match init_value(k, before, tx_ring_dma, rx_ring_dma) {
                Some(v) => v,
                None => before[k],
            },
    )
}

/// Transmit descriptor `i` after the rings are reset: it points at its
/// buffer and is marked done, so that the driver owns it.
pub open spec fn reset_tx_desc(tx_buffers_dma: usize, i: int) -> TxDesc {
    TxDesc {
        addr: buffer_dma(tx_buffers_dma, i),
        length: 0,
        cso: 0,
        cmd: 0,
        status: E1000_TXD_STAT_DD,
        css: 0,
        special: 0,
    }
}

/// Receive descriptor `i` after the rings are reset, or after the driver took
/// its frame: it points at its buffer, every other field zero.
pub open spec fn empty_rx_desc(rx_buffers_dma: usize, i: int) -> RxDesc {
    RxDesc { addr: buffer_dma(rx_buffers_dma, i), length: 0, csum: 0, status: 0, errors: 0, special: 0 }
}

/// The transmit descriptor handed to the card for a packet of `len` bytes in
/// the buffer at `addr`: end of packet and report status.
pub open spec fn sent_desc(addr: u64, len: nat) -> TxDesc {
    TxDesc {
        addr,
        length: len as u16,
        cso: 0,
        cmd: (E1000_TXD_CMD_EOP | E1000_TXD_CMD_RS) as u8,
        status: 0,
        css: 0,
        special: 0,
    }
}

/// The device after the card has received `frame` into buffer `index` and
/// written back the descriptor's fields from `desc`, its address aside.
pub open spec fn card_delivered(v: E1000View, index: int, desc: RxDesc, frame: Seq<u8>) -> E1000View {
    E1000View {
        rx_ring: v.rx_ring.update(index, RxDesc { addr: v.rx_ring[index].addr, ..desc }),
        rx_data: write_bytes(v.rx_data, index * MBUF_SIZE, frame),
        ..v
    }
}

/// The device after `packet` was handed to the card through the descriptor
/// at the transmit tail: the packet in the tail's buffer, the descriptor
/// rewritten for it, the tail one slot further around the ring.
pub open spec fn after_transmit(v: E1000View, packet: Seq<u8>) -> E1000View {
    let i = v.tdt() as int;
    E1000View {
        regs: v.regs.update(E1000_TDT as int, ((i + 1) % TX_RING_SIZE as int) as u32),
        tx_ring: v.tx_ring.update(i, sent_desc(v.tx_ring[i].addr, packet.len())),
        tx_data: write_bytes(v.tx_data, i * MBUF_SIZE, packet),
        ..v
    }
}

/// The device after it was asked to transmit `packet`: unchanged when the
/// packet is longer than a buffer or the tail descriptor is still the card's,
/// else as `after_transmit` says.
pub open spec fn transmitted(v: E1000View, packet: Seq<u8>) -> E1000View {
    if packet.len() > MBUF_SIZE || v.tx_ring[v.tdt() as int].status & E1000_TXD_STAT_DD == 0 {
        v
    } else {
        after_transmit(v, packet)
    }
}

/// The receive descriptor the driver looks at next: the one after the tail.
pub open spec fn next_rx(v: E1000View) -> int {
    (v.rdt() + 1) % RX_RING_SIZE as int
}

/// The device after the driver took the descriptor after the receive tail:
/// the descriptor emptied and the tail moved onto it.
pub open spec fn after_receive(v: E1000View) -> E1000View {
    let i = next_rx(v);
    E1000View {
        regs: v.regs.update(E1000_RDT as int, i as u32),
        rx_ring: v.rx_ring.update(i, empty_rx_desc(v.rx_buffers.dma_addr, i)),
        ..v
    }
}

/// The frame in the descriptor after the receive tail, once that descriptor
/// is done: `None` unless it ends a packet, else the bytes of its buffer up to
/// its length, cut to one buffer.
pub open spec fn received_frame(v: E1000View) -> Option<Seq<u8>> {
    let i = next_rx(v);
    let d = v.rx_ring[i];
    if d.status & E1000_RXD_STAT_EOP == 0 {
        None
    } else {
        Some(
            v.rx_data.subrange(
                i * MBUF_SIZE,
                i * MBUF_SIZE + if d.length < MBUF_SIZE {
                    d.length as int
                } else {
                    MBUF_SIZE as int
                },
            ),
        )
    }
}

/// The error returned for a packet longer than a buffer.
pub open spec fn packet_too_long() -> Error {
    Error { code: ErrorCode::InvalidArgument, reason: "packet exceeds e1000 buffer size" }
}

/// The error returned when the next transmit descriptor is still the card's.
pub open spec fn tx_busy() -> Error {
    Error { code: ErrorCode::TryAgain, reason: "tx descriptor still owned by device" }
}

/// What the device holds, as values.
pub ghost struct E1000View {
    /// The register window.
    pub regs: Seq<u32>,
    /// The descriptors of the transmit ring.
    pub tx_ring: Seq<TxDesc>,
    /// The descriptors of the receive ring.
    pub rx_ring: Seq<RxDesc>,
    /// The bytes of the transmit buffers, buffer after buffer.
    pub tx_data: Seq<u8>,
    /// The bytes of the receive buffers, buffer after buffer.
    pub rx_data: Seq<u8>,
    /// The MAC address.
    pub mac: Seq<u8>,
    /// The region of the transmit ring.
    pub tx_ring_region: DmaRegion,
    /// The region of the receive ring.
    pub rx_ring_region: DmaRegion,
    /// The region of the transmit buffers.
    pub tx_buffers: DmaRegion,
    /// The region of the receive buffers.
    pub rx_buffers: DmaRegion,
    /// The requests made of the kernel so far (see `KernelFunctions::calls`).
    pub calls: Seq<DmaCall>,
}

impl E1000View {
    pub open spec fn tdt(self) -> u32 {
        self.regs[E1000_TDT as int]
    }

    pub open spec fn rdt(self) -> u32 {
        self.regs[E1000_RDT as int]
    }
}

/// The e1000 card, with the kernel functions that back its DMA memory.
pub struct E1000Device<K: KernelFunctions> {
    regs: Vec<u32>,
    rx_ring: DmaRegion,
    tx_ring: DmaRegion,
    rx_buffers: DmaRegion,
    tx_buffers: DmaRegion,
    tx_descs: Vec<TxDesc>,
    rx_descs: Vec<RxDesc>,
    tx_bytes: Vec<u8>,
    rx_bytes: Vec<u8>,
    mac_address: [u8; 6],
    kfn: K,
}

impl<K: KernelFunctions> View for E1000Device<K> {
    type V = E1000View;

    closed spec fn view(&self) -> E1000View {
        E1000View {
            regs: self.regs@,
            tx_ring: self.tx_descs@,
            rx_ring: self.rx_descs@,
            tx_data: self.tx_bytes@,
            rx_data: self.rx_bytes@,
            mac: self.mac_address@,
            tx_ring_region: self.tx_ring,
            rx_ring_region: self.rx_ring,
            tx_buffers: self.tx_buffers,
            rx_buffers: self.rx_buffers,
            calls: self.kfn.calls(),
        }
    }
}

/// The device as `new` leaves it over the given register window and regions:
/// registers programmed by `init`, rings reset, buffers zero, and the MAC
/// address read back from the receive address registers.
pub open spec fn initial_view(
    regs: Seq<u32>,
    tx_ring: DmaRegion,
    rx_ring: DmaRegion,
    tx_buffers: DmaRegion,
    rx_buffers: DmaRegion,
    calls: Seq<DmaCall>,
) -> E1000View {
    E1000View {
        regs: init_image(regs, tx_ring.dma_addr, rx_ring.dma_addr),
        tx_ring: Seq::new(TX_RING_SIZE as nat, |i: int| reset_tx_desc(tx_buffers.dma_addr, i)),
        rx_ring: Seq::new(RX_RING_SIZE as nat, |i: int| empty_rx_desc(rx_buffers.dma_addr, i)),
        tx_data: Seq::new((TX_RING_SIZE * MBUF_SIZE) as nat, |k: int| 0u8),
        rx_data: Seq::new((RX_RING_SIZE * MBUF_SIZE) as nat, |k: int| 0u8),
        mac: mac_of_ra(regs[E1000_RA as int], regs[E1000_RA + 1]),
        tx_ring_region: tx_ring,
        rx_ring_region: rx_ring,
        tx_buffers,
        rx_buffers,
        calls,
    }
}

/// Pages of region `k` of the device, in the order they are allocated:
/// transmit ring, receive ring, transmit buffers, receive buffers.
pub open spec fn region_pages(k: int) -> usize {
    if k == 0 {
        TX_RING_PAGES
    } else if k == 1 {
        RX_RING_PAGES
    } else if k == 2 {
        TX_BUFFER_PAGES
    } else {
        RX_BUFFER_PAGES
    }
}

/// The reason reported when the kernel has no memory for region `k`.
pub open spec fn region_reason(k: int) -> &'static str {
    if k == 0 {
        "tx descriptor ring"
    } else if k == 1 {
        "rx descriptor ring"
    } else if k == 2 {
        "tx buffers"
    } else {
        "rx buffers"
    }
}

/// The kernel's answer to an allocation request.
pub open spec fn alloc_answer(c: DmaCall) -> (usize, usize) {
    match c {
        DmaCall::Alloc { answer, .. } => answer,
        DmaCall::Free { .. } => (0, 0),
    }
}

/// Whether an allocation request was granted: both addresses non-zero.
pub open spec fn granted(c: DmaCall) -> bool {
    alloc_answer(c).0 != 0 && alloc_answer(c).1 != 0
}

/// The region that a granted allocation request describes.
pub open spec fn region_of(c: DmaCall) -> DmaRegion {
    match c {
        DmaCall::Alloc { pages, answer } => DmaRegion { vaddr: answer.0, dma_addr: answer.1, pages },
        DmaCall::Free { vaddr, pages } => DmaRegion { vaddr, dma_addr: 0, pages },
    }
}

/// Whether `requests` are the allocation requests that allocating the four
/// regions made, and `r` what it returned: region `j` is asked for, with its
/// page count, only once every earlier region was granted; the first refusal
/// ends the allocations with the `OutOfMemory` error that names its region.
pub open spec fn allocations_made(requests: Seq<DmaCall>, r: Result<[DmaRegion; 4], Error>) -> bool {
    &&& 1 <= requests.len() <= 4
    &&& forall|j: int|
        0 <= j < requests.len() ==> (#[trigger] requests[j]) == (DmaCall::Alloc {
            pages: region_pages(j),
            answer: alloc_answer(requests[j]),
        })
    &&& forall|j: int| 0 <= j < requests.len() - 1 ==> granted(#[trigger] requests[j])
    &&& match r {
        Ok(regions) => {
            &&& requests.len() == 4
            &&& granted(requests[3])
            &&& forall|j: int| 0 <= j < 4 ==> regions@[j] == region_of(#[trigger] requests[j])
        },
        Err(e) => {
            &&& !granted(requests[requests.len() - 1])
            &&& e == (Error {
                code: ErrorCode::OutOfMemory,
                reason: region_reason(requests.len() - 1),
            })
        },
    }
}

/// The requests that releasing a device with view `v` makes: its four regions
/// are freed, each with its own page count, in allocation order.
pub open spec fn release_calls(v: E1000View) -> Seq<DmaCall> {
    seq![
        DmaCall::Free { vaddr: v.tx_ring_region.vaddr, pages: v.tx_ring_region.pages },
        DmaCall::Free { vaddr: v.rx_ring_region.vaddr, pages: v.rx_ring_region.pages },
        DmaCall::Free { vaddr: v.tx_buffers.vaddr, pages: v.tx_buffers.pages },
        DmaCall::Free { vaddr: v.rx_buffers.vaddr, pages: v.rx_buffers.pages },
    ]
}

/// Releasing a device frees what allocating its regions was granted: one
/// request per allocation, in allocation order, each at the virtual address
/// the kernel answered and with the page count that was asked for.
pub proof fn lemma_release_frees_what_was_allocated(
    requests: Seq<DmaCall>,
    regions: [DmaRegion; 4],
    v: E1000View,
)
    requires
        allocations_made(requests, Ok::<[DmaRegion; 4], Error>(regions)),
        v.tx_ring_region == regions@[0],
        v.rx_ring_region == regions@[1],
        v.tx_buffers == regions@[2],
        v.rx_buffers == regions@[3],
    ensures
        release_calls(v).len() == requests.len(),
        forall|j: int|
            0 <= j < requests.len() ==> #[trigger] release_calls(v)[j] == (DmaCall::Free {
                vaddr: alloc_answer(requests[j]).0,
                pages: region_pages(j),
            }),
{
    assert(requests[0] == DmaCall::Alloc { pages: region_pages(0), answer: alloc_answer(requests[0]) });
    assert(requests[1] == DmaCall::Alloc { pages: region_pages(1), answer: alloc_answer(requests[1]) });
    assert(requests[2] == DmaCall::Alloc { pages: region_pages(2), answer: alloc_answer(requests[2]) });
    assert(requests[3] == DmaCall::Alloc { pages: region_pages(3), answer: alloc_answer(requests[3]) });
    assert(regions@[0] == region_of(requests[0]));
    assert(regions@[1] == region_of(requests[1]));
    assert(regions@[2] == region_of(requests[2]));
    assert(regions@[3] == region_of(requests[3]));
}

impl<K: KernelFunctions> E1000Device<K> {
    /// The device's invariant: a whole register window, full rings and buffer
    /// areas, and every descriptor pointing at the buffer of its own index.
    pub open spec fn wf(&self) -> bool {
        let v = self@;
        &&& v.regs.len() == REG_COUNT
        &&& v.tx_ring.len() == TX_RING_SIZE
        &&& v.rx_ring.len() == RX_RING_SIZE
        &&& v.tx_data.len() == TX_RING_SIZE * MBUF_SIZE
        &&& v.rx_data.len() == RX_RING_SIZE * MBUF_SIZE
        &&& v.mac.len() == 6
        &&& forall|i: int|
            0 <= i < TX_RING_SIZE ==> (#[trigger] v.tx_ring[i]).addr == buffer_dma(
                v.tx_buffers.dma_addr,
                i,
            )
        &&& forall|i: int|
            0 <= i < RX_RING_SIZE ==> (#[trigger] v.rx_ring[i]).addr == buffer_dma(
                v.rx_buffers.dma_addr,
                i,
            )
    }

    /// Every descriptor of a device holds the full DMA address of the buffer
    /// of its index: the buffer area's DMA base plus the index times the
    /// buffer size, wherever that sum fits in a `usize`.
    pub proof fn lemma_descriptors_hold_buffer_addresses(&self)
        requires
            self.wf(),
        ensures
            forall|i: int|
                0 <= i < TX_RING_SIZE && self@.tx_buffers.dma_addr + i * MBUF_SIZE <= usize::MAX
                    ==> #[trigger] self@.tx_ring[i].addr == self@.tx_buffers.dma_addr + i * MBUF_SIZE,
            forall|i: int|
                0 <= i < RX_RING_SIZE && self@.rx_buffers.dma_addr + i * MBUF_SIZE <= usize::MAX
                    ==> #[trigger] self@.rx_ring[i].addr == self@.rx_buffers.dma_addr + i * MBUF_SIZE,
    {
        let v = self@;
        assert forall|i: int|
            0 <= i < TX_RING_SIZE && v.tx_buffers.dma_addr + i * MBUF_SIZE <= usize::MAX
                implies #[trigger] v.tx_ring[i].addr == v.tx_buffers.dma_addr + i * MBUF_SIZE by {
            assert(v.tx_ring[i].addr == buffer_dma(v.tx_buffers.dma_addr, i));
        }
        assert forall|i: int|
            0 <= i < RX_RING_SIZE && v.rx_buffers.dma_addr + i * MBUF_SIZE <= usize::MAX
                implies #[trigger] v.rx_ring[i].addr == v.rx_buffers.dma_addr + i * MBUF_SIZE by {
            assert(v.rx_ring[i].addr == buffer_dma(v.rx_buffers.dma_addr, i));
        }
    }

    /// Reads register `index` of the window.
    pub fn read_reg(&self, index: usize) -> (v: u32)
        requires
            self.wf(),
            index < REG_COUNT,
        ensures
            v == self@.regs[index as int],
    {
        self.regs[index]
    }

    /// Writes register `index` of the window.
    pub fn write_reg(&mut self, index: usize, value: u32)
        requires
            old(self).wf(),
            index < REG_COUNT,
        ensures
            final(self).wf(),
            final(self)@ == (E1000View { regs: old(self)@.regs.update(index as int, value), ..old(self)@ }),
    {
        self.regs.set(index, value);
    }

    /// Flushes posted writes by reading the status register.
    fn write_flush(&self)
        requires
            self.wf(),
    {
        let _ = self.read_reg(E1000_STAT);
    }

    /// Whether both rings are a multiple of 128 bytes long, as the card asks.
    fn ring_len_is_valid(&self) -> (valid: bool)
        ensures
            valid,
    {
        (TX_RING_SIZE * DESC_SIZE) % 128 == 0 && (RX_RING_SIZE * DESC_SIZE) % 128 == 0
    }

    fn init_tx(&mut self)
        requires
            old(self).wf(),
        ensures
            final(self).wf(),
            final(self)@ == (E1000View {
                regs: old(self)@.regs.update(E1000_TCTL as int, TCTL_VALUE).update(
                    E1000_TIPG as int,
                    TIPG_VALUE,
                ).update(E1000_TDBAL as int, old(self)@.tx_ring_region.dma_addr as u32).update(
                    E1000_TDBAH as int,
                    high_dword(old(self)@.tx_ring_region.dma_addr),
                ).update(E1000_TDLEN as int, (TX_RING_SIZE * DESC_SIZE) as u32).update(
                    E1000_TDH as int,
                    0,
                ).update(E1000_TDT as int, 0).update(E1000_TIDV as int, 0).update(
                    E1000_TADV as int,
                    0,
                ),
                ..old(self)@
            }),
    {
        self.write_reg(
            E1000_TCTL,
            E1000_TCTL_EN | E1000_TCTL_PSP | (0x10 << E1000_TCTL_CT_SHIFT) | (0x40
                << E1000_TCTL_COLD_SHIFT),
        );
        self.write_reg(E1000_TIPG, 10 | (8 << 10) | (6 << 20));
        self.write_reg(E1000_TDBAL, self.tx_ring.dma_addr as u32);
        self.write_reg(E1000_TDBAH, self.tx_ring.dma_addr.wrapping_shr(32) as u32);
        self.write_reg(E1000_TDLEN, (TX_RING_SIZE * DESC_SIZE) as u32);
        self.write_reg(E1000_TDH, 0);
        self.write_reg(E1000_TDT, 0);
        self.write_reg(E1000_TIDV, 0);
        self.write_reg(E1000_TADV, 0);
    }

    fn init_rx(&mut self)
        requires
            old(self).wf(),
        ensures
            final(self).wf(),
            final(self)@ == (E1000View {
                regs: Seq::new(
                    REG_COUNT as nat,
                    |k: int|
                        if in_multicast_table(k) {
                            0
                        } else {
                            old(self)@.regs.update(E1000_RCTL as int, RCTL_VALUE).update(
                                E1000_RFCTL as int,
                                0,
                            ).update(E1000_RDBAL as int, old(self)@.rx_ring_region.dma_addr as u32).update(
                                E1000_RDBAH as int,
                                high_dword(old(self)@.rx_ring_region.dma_addr),
                            ).update(E1000_RDLEN as int, (RX_RING_SIZE * DESC_SIZE) as u32).update(
                                E1000_RDH as int,
                                0,
                            ).update(E1000_RDT as int, (RX_RING_SIZE - 1) as u32).update(
                                E1000_RDTR as int,
                                0,
                            ).update(E1000_RADV as int, 0).update(E1000_ITR as int, 0)[k]
                        },
                ),
                ..old(self)@
            }),
    {
        self.write_reg(
            E1000_RCTL,
            (E1000_RCTL_EN | E1000_RCTL_BAM | E1000_RCTL_SZ_2048 | E1000_RCTL_SECRC) & !(0b11 << 10),
        );
        self.write_reg(E1000_RFCTL, 0);
        self.write_reg(E1000_RDBAL, self.rx_ring.dma_addr as u32);
        self.write_reg(E1000_RDBAH, self.rx_ring.dma_addr.wrapping_shr(32) as u32);
        self.write_reg(E1000_RDLEN, (RX_RING_SIZE * DESC_SIZE) as u32);
        self.write_reg(E1000_RDH, 0);
        self.write_reg(E1000_RDT, (RX_RING_SIZE - 1) as u32);
        self.write_reg(E1000_RDTR, 0);
        self.write_reg(E1000_RADV, 0);
        self.write_reg(E1000_ITR, 0);
        let ghost staged = self@;
        assert(staged.regs =~= Seq::new(
            REG_COUNT as nat,
            |k: int|
                if in_multicast_table(k) && k < E1000_MTA + 0 {
                    0
                } else {
                    staged.regs[k]
                },
        ));
        let mut index: usize = 0;
        while index < 4096 / 32
            invariant
                index <= 128,
                self.wf(),
                self@ == (E1000View {
                    regs: Seq::new(
                        REG_COUNT as nat,
                        |k: int|
                            if in_multicast_table(k) && k < E1000_MTA + index {
                                0
                            } else {
                                staged.regs[k]
                            },
                    ),
                    ..staged
                }),
            decreases 128 - index,
        {
            self.write_reg(E1000_MTA + index, 0);
            index = index + 1;
            assert(self@.regs =~= Seq::new(
                REG_COUNT as nat,
                |k: int|
                    if in_multicast_table(k) && k < E1000_MTA + index {
                        0
                    } else {
                        staged.regs[k]
                    },
            ));
        }
        assert(self@.regs =~= Seq::new(
            REG_COUNT as nat,
            |k: int|
                if in_multicast_table(k) {
                    0
                } else {
                    staged.regs[k]
                },
        ));
    }

    /// Resets the card, sets the link up, programs both rings and the
    /// multicast table, and reads the MAC address from the receive address
    /// registers. The register window ends as `init_image` says.
    pub fn init(&mut self) -> (r: Result<(), Error>)
        requires
            old(self).wf(),
        ensures
            final(self).wf(),
            r is Ok,
            final(self)@ == after_init(old(self)@),
    {
        if !self.ring_len_is_valid() {
            return Err(
                Error::new(
                    ErrorCode::InvalidArgument,
                    "descriptor ring length must be 128-byte aligned",
                ),
            );
        }
        let ghost before = self@;
        let ctl = self.read_reg(E1000_CTL);
        self.write_reg(E1000_IMS, 0);
        self.write_reg(E1000_CTL, ctl | E1000_CTL_RST);
        self.write_flush();

        let ctl_now = self.read_reg(E1000_CTL);
        self.write_reg(E1000_CTL, ctl_now | E1000_CTL_SLU);
        self.init_tx();
        self.init_rx();
        self.mac_address = self.read_mac_address();
        assert(self@.regs =~= init_image(
            before.regs,
            before.tx_ring_region.dma_addr,
            before.rx_ring_region.dma_addr,
        ));
        Ok(())
    }

    /// Points every descriptor at the buffer of its index; transmit
    /// descriptors are marked done, so the driver owns them, and receive
    /// descriptors are empty, so the card owns them.
    fn reset_rings(&mut self)
        requires
            old(self)@.tx_ring.len() == TX_RING_SIZE,
            old(self)@.rx_ring.len() == RX_RING_SIZE,
        ensures
            final(self)@ == (E1000View {
                tx_ring: Seq::new(
                    TX_RING_SIZE as nat,
                    |i: int| reset_tx_desc(old(self)@.tx_buffers.dma_addr, i),
                ),
                rx_ring: Seq::new(
                    RX_RING_SIZE as nat,
                    |i: int| empty_rx_desc(old(self)@.rx_buffers.dma_addr, i),
                ),
                ..old(self)@
            }),
    {
        let tx_buffers_dma = self.tx_buffers.dma_addr;
        let rx_buffers_dma = self.rx_buffers.dma_addr;
        let ghost before = self@;

        let mut index: usize = 0;
        while index < TX_RING_SIZE
            invariant
                index <= TX_RING_SIZE,
                tx_buffers_dma == before.tx_buffers.dma_addr,
                self@ == (E1000View { tx_ring: self@.tx_ring, ..before }),
                self@.tx_ring.len() == TX_RING_SIZE,
                forall|i: int|
                    0 <= i < index ==> #[trigger] self@.tx_ring[i] == reset_tx_desc(tx_buffers_dma, i),
            decreases TX_RING_SIZE - index,
        {
            let mut descriptor = TxDesc::empty();
            descriptor.addr = tx_buffers_dma.wrapping_add(index * MBUF_SIZE) as u64;
            descriptor.status = E1000_TXD_STAT_DD;
            self.tx_descs.set(index, descriptor);
            index = index + 1;
        }

        let mut index: usize = 0;
        while index < RX_RING_SIZE
            invariant
                index <= RX_RING_SIZE,
                rx_buffers_dma == before.rx_buffers.dma_addr,
                self@ == (E1000View { tx_ring: self@.tx_ring, rx_ring: self@.rx_ring, ..before }),
                self@.tx_ring == Seq::new(
                    TX_RING_SIZE as nat,
                    |i: int| reset_tx_desc(before.tx_buffers.dma_addr, i),
                ),
                self@.rx_ring.len() == RX_RING_SIZE,
                forall|i: int|
                    0 <= i < index ==> #[trigger] self@.rx_ring[i] == empty_rx_desc(rx_buffers_dma, i),
            decreases RX_RING_SIZE - index,
        {
            let mut descriptor = RxDesc::empty();
            descriptor.addr = rx_buffers_dma.wrapping_add(index * MBUF_SIZE) as u64;
            self.rx_descs.set(index, descriptor);
            index = index + 1;
        }
        assert(self@.rx_ring =~= Seq::new(
            RX_RING_SIZE as nat,
            |i: int| empty_rx_desc(before.rx_buffers.dma_addr, i),
        ));
    }

    /// Asks the kernel for `pages` pages of DMA memory; a zero address in the
    /// answer is an `OutOfMemory` error with `reason`.
    fn alloc_dma(kfn: &mut K, pages: usize, reason: &'static str) -> (r: Result<DmaRegion, Error>)
        ensures
            match r {
                Ok(region) => region.pages == pages && region.vaddr != 0 && region.dma_addr != 0,
                Err(e) => e == (Error { code: ErrorCode::OutOfMemory, reason }),
            },
            K::keeps_call_log() ==> {
                let c = final(kfn).calls().last();
                &&& final(kfn).calls() == old(kfn).calls().push(c)
                &&& c == (DmaCall::Alloc { pages, answer: alloc_answer(c) })
                &&& r == if granted(c) {
                    Ok::<DmaRegion, Error>(region_of(c))
                } else {
                    Err::<DmaRegion, Error>(Error { code: ErrorCode::OutOfMemory, reason })
                }
            },
    {
        let (vaddr, dma_addr) = kfn.dma_alloc(pages);
        DmaRegion::from_allocation(vaddr, dma_addr, pages, reason)
    }

    /// Allocates the two rings and the two buffer areas, in that order
    /// (transmit ring, receive ring, transmit buffers, receive buffers), and
    /// stops at the first allocation the kernel refuses, with the
    /// `OutOfMemory` error that names its region (see `allocations_made`).
    pub fn allocate_regions(kfn: &mut K) -> (r: Result<[DmaRegion; 4], Error>)
        ensures
            match r {
                Ok(regions) => forall|j: int|
                    0 <= j < 4 ==> (#[trigger] regions@[j]).pages == region_pages(j)
                        && regions@[j].vaddr != 0 && regions@[j].dma_addr != 0,
                Err(e) => exists|k: int| 0 <= k < 4 && e == (Error {
                    code: ErrorCode::OutOfMemory,
                    reason: region_reason(k),
                }),
            },
            K::keeps_call_log() ==> {
                &&& old(kfn).calls().len() < final(kfn).calls().len()
                &&& final(kfn).calls().take(old(kfn).calls().len() as int) == old(kfn).calls()
                &&& allocations_made(final(kfn).calls().skip(old(kfn).calls().len() as int), r)
            },
    {
        let ghost start = kfn.calls();
        let tx_ring = match Self::alloc_dma(kfn, TX_RING_PAGES, "tx descriptor ring") {
            Ok(region) => region,
            Err(e) => {
                proof {
                    if K::keeps_call_log() {
                        let s = kfn.calls().skip(start.len() as int);
                        assert(s =~= seq![kfn.calls().last()]);
                        assert(kfn.calls().take(start.len() as int) =~= start);
                    }
                }
                assert(e == (Error { code: ErrorCode::OutOfMemory, reason: region_reason(0) }));
                return Err(e);
            },
        };
        let ghost after1 = kfn.calls();
        let rx_ring = match Self::alloc_dma(kfn, RX_RING_PAGES, "rx descriptor ring") {
            Ok(region) => region,
            Err(e) => {
                proof {
                    if K::keeps_call_log() {
                        let s = kfn.calls().skip(start.len() as int);
                        assert(s =~= seq![after1.last(), kfn.calls().last()]);
                        assert(kfn.calls().take(start.len() as int) =~= start);
                    }
                }
                assert(e == (Error { code: ErrorCode::OutOfMemory, reason: region_reason(1) }));
                return Err(e);
            },
        };
        let ghost after2 = kfn.calls();
        let tx_buffers = match Self::alloc_dma(kfn, TX_BUFFER_PAGES, "tx buffers") {
            Ok(region) => region,
            Err(e) => {
                proof {
                    if K::keeps_call_log() {
                        let s = kfn.calls().skip(start.len() as int);
                        assert(s =~= seq![after1.last(), after2.last(), kfn.calls().last()]);
                        assert(kfn.calls().take(start.len() as int) =~= start);
                    }
                }
                assert(e == (Error { code: ErrorCode::OutOfMemory, reason: region_reason(2) }));
                return Err(e);
            },
        };
        let ghost after3 = kfn.calls();
        let rx_buffers = match Self::alloc_dma(kfn, RX_BUFFER_PAGES, "rx buffers") {
            Ok(region) => region,
            Err(e) => {
                proof {
                    if K::keeps_call_log() {
                        let s = kfn.calls().skip(start.len() as int);
                        assert(s =~= seq![after1.last(), after2.last(), after3.last(), kfn.calls().last()]);
                        assert(kfn.calls().take(start.len() as int) =~= start);
                    }
                }
                assert(e == (Error { code: ErrorCode::OutOfMemory, reason: region_reason(3) }));
                return Err(e);
            },
        };
        let regions = [tx_ring, rx_ring, tx_buffers, rx_buffers];
        proof {
            if K::keeps_call_log() {
                let s = kfn.calls().skip(start.len() as int);
                assert(s =~= seq![after1.last(), after2.last(), after3.last(), kfn.calls().last()]);
                assert(kfn.calls().take(start.len() as int) =~= start);
            }
        }
        Ok(regions)
    }

    /// Allocates the two rings and the two buffer areas (see
    /// `allocate_regions`), then builds the device over them and the register
    /// window `regs` (see `from_regions`). Fails with the `OutOfMemory` error
    /// of the first allocation the kernel refuses.
    pub fn new(kfn: K, regs: Vec<u32>) -> (r: Result<Self, Error>)
        requires
            regs@.len() == REG_COUNT,
        ensures
            match r {
                Ok(d) => {
                    &&& d.wf()
                    &&& d@ == initial_view(
                        regs@,
                        d@.tx_ring_region,
                        d@.rx_ring_region,
                        d@.tx_buffers,
                        d@.rx_buffers,
                        d@.calls,
                    )
                    &&& d@.tx_ring_region.pages == TX_RING_PAGES
                    &&& d@.rx_ring_region.pages == RX_RING_PAGES
                    &&& d@.tx_buffers.pages == TX_BUFFER_PAGES
                    &&& d@.rx_buffers.pages == RX_BUFFER_PAGES
                    &&& d@.tx_ring_region.vaddr != 0 && d@.tx_ring_region.dma_addr != 0
                    &&& d@.rx_ring_region.vaddr != 0 && d@.rx_ring_region.dma_addr != 0
                    &&& d@.tx_buffers.vaddr != 0 && d@.tx_buffers.dma_addr != 0
                    &&& d@.rx_buffers.vaddr != 0 && d@.rx_buffers.dma_addr != 0
                    &&& K::keeps_call_log() ==> {
                        &&& kfn.calls().len() < d@.calls.len()
                        &&& d@.calls.take(kfn.calls().len() as int) == kfn.calls()
                        &&& allocations_made(
                            d@.calls.skip(kfn.calls().len() as int),
                            Ok::<[DmaRegion; 4], Error>(
                                [d@.tx_ring_region, d@.rx_ring_region, d@.tx_buffers, d@.rx_buffers],
                            ),
                        )
                    }
                },
                Err(e) => exists|k: int| 0 <= k < 4 && e == (Error {
                    code: ErrorCode::OutOfMemory,
                    reason: region_reason(k),
                }),
            },
    {
        let mut kfn = kfn;
        let regions = Self::allocate_regions(&mut kfn)?;
        let d = Self::from_regions(kfn, regs, regions[0], regions[1], regions[2], regions[3]);
        proof {
            if K::keeps_call_log() {
                assert(regions =~= [regions[0], regions[1], regions[2], regions[3]]);
            }
        }
        d
    }

    /// The four DMA regions of the device, in allocation order: transmit ring,
    /// receive ring, transmit buffers, receive buffers.
    pub fn dma_regions(&self) -> (r: [DmaRegion; 4])
        ensures
            r@ == seq![self@.tx_ring_region, self@.rx_ring_region, self@.tx_buffers, self@.rx_buffers],
    {
        let r = [self.tx_ring, self.rx_ring, self.tx_buffers, self.rx_buffers];
        assert(r@ =~= seq![self@.tx_ring_region, self@.rx_ring_region, self@.tx_buffers, self@.rx_buffers]);
        r
    }

    /// The MAC address read at `init` or set since.
    pub fn hardware_addr(&self) -> (mac: [u8; 6])
        ensures
            mac@ == self@.mac,
    {
        self.mac_address
    }

    /// Programs `address` into the receive address registers (marked valid)
    /// and makes it the device's MAC address.
    pub fn set_hardware_addr(&mut self, address: [u8; 6])
        requires
            old(self).wf(),
        ensures
            final(self).wf(),
            final(self)@ == after_set_hardware_addr(old(self)@, address@),
    {
        let a = address[0];
        let b = address[1];
        let c = address[2];
        let d = address[3];
        let e = address[4];
        let f = address[5];
        let ral = (a as u32) | ((b as u32) << 8) | ((c as u32) << 16) | ((d as u32) << 24);
        let rah = (e as u32) | ((f as u32) << 8) | (1 << 31);

        self.write_reg(E1000_RA, ral);
        self.write_reg(E1000_RA + 1, rah);
        self.mac_address = address;
        self.write_flush();
    }

    /// Hands `packet` to the card through the descriptor at the transmit tail.
    ///
    /// A packet longer than a buffer is refused, and so is any packet while the
    /// tail descriptor is still the card's (done bit clear); neither changes
    /// anything. Otherwise the packet is copied into the tail's buffer, the
    /// descriptor is rewritten for it (length, end of packet and report status,
    /// every other field zero), the tail moves one slot around the ring, and
    /// the packet's length is returned.
    pub fn transmit_frame(&mut self, packet: &[u8]) -> (r: Result<usize, Error>)
        requires
            old(self).wf(),
            packet@.len() <= MBUF_SIZE ==> old(self)@.tdt() < TX_RING_SIZE,
        ensures
            final(self).wf(),
            ({
                let v = old(self)@;
                let i = v.tdt() as int;
                if packet@.len() > MBUF_SIZE {
                    r == Err::<usize, Error>(packet_too_long()) && final(self)@ == v
                } else if v.tx_ring[i].status & E1000_TXD_STAT_DD == 0 {
                    r == Err::<usize, Error>(tx_busy()) && final(self)@ == v
                } else {
                    r == Ok::<usize, Error>(packet@.len() as usize) && final(self)@ == after_transmit(
                        v,
                        packet@,
                    )
                }
            }),
    {
        if packet.len() > MBUF_SIZE {
            return Err(Error::new(ErrorCode::InvalidArgument, "packet exceeds e1000 buffer size"));
        }
        let index = self.read_reg(E1000_TDT) as usize;
        let mut descriptor = self.tx_descs[index];
        if descriptor.status & E1000_TXD_STAT_DD == 0 {
            return Err(Error::new(ErrorCode::TryAgain, "tx descriptor still owned by device"));
        }
        copy_into(&mut self.tx_bytes, index * MBUF_SIZE, packet);

        descriptor.length = packet.len() as u16;
        descriptor.cso = 0;
        descriptor.cmd = (E1000_TXD_CMD_EOP | E1000_TXD_CMD_RS) as u8;
        descriptor.status = 0;
        descriptor.css = 0;
        descriptor.special = 0;
        self.tx_descs.set(index, descriptor);

        self.write_reg(E1000_TDT, ((index + 1) % TX_RING_SIZE) as u32);
        self.write_flush();
        Ok(packet.len())
    }

    /// Takes the frame the card left in the descriptor after the receive tail.
    ///
    /// Nothing changes while that descriptor is not done. Otherwise its frame
    /// is returned when the descriptor ends a packet, cut to one buffer; the
    /// descriptor is emptied (its buffer address kept) and the tail moves onto
    /// it, handing it back to the card.
    pub fn receive_frame(&mut self) -> (r: Option<Vec<u8>>)
        requires
            old(self).wf(),
        ensures
            final(self).wf(),
            ({
                let v = old(self)@;
                if v.rx_ring[next_rx(v)].status & E1000_RXD_STAT_DD == 0 {
                    r is None && final(self)@ == v
                } else {
                    &&& final(self)@ == after_receive(v)
                    &&& match r {
                        None => received_frame(v) is None,
                        Some(frame) => received_frame(v) == Some(frame@),
                    }
                }
            }),
    {
        let index = ((self.read_reg(E1000_RDT) as u64 + 1) % (RX_RING_SIZE as u64)) as usize;
        let mut descriptor = self.rx_descs[index];
        if descriptor.status & E1000_RXD_STAT_DD == 0 {
            return None;
        }
        let frame = if descriptor.status & E1000_RXD_STAT_EOP == 0 {
            None
        } else {
            let length = if (descriptor.length as usize) < MBUF_SIZE {
                descriptor.length as usize
            } else {
                MBUF_SIZE
            };
            Some(copy_out(&self.rx_bytes, index * MBUF_SIZE, length))
        };

        descriptor.length = 0;
        descriptor.csum = 0;
        descriptor.status = 0;
        descriptor.errors = 0;
        descriptor.special = 0;
        self.rx_descs.set(index, descriptor);

        self.write_reg(E1000_RDT, index as u32);
        self.write_flush();
        frame
    }

    /// Lets `f` fill a zeroed packet of `len` bytes, then transmits it;
    /// returns what `f` returned. A refused transmission is dropped.
    pub fn transmit_with<R, F: FnOnce(&mut [u8]) -> R>(&mut self, len: usize, f: F) -> (r: R)
        requires
            old(self).wf(),
            old(self)@.tdt() < TX_RING_SIZE,
            forall|s: &mut [u8]| call_requires(f, (s,)),
        ensures
            final(self).wf(),
            exists|s: &mut [u8]|
                {
                    &&& #[trigger] call_ensures(f, (s,), r)
                    &&& s@ == Seq::new(len as nat, |i: int| 0u8)
                    &&& final(self)@ == transmitted(old(self)@, final(s)@)
                },
    {
        let mut packet: Vec<u8> = vec![0u8; len];
        let slice = packet.as_mut_slice();
        let result = f(slice);
        let _ = self.transmit_frame(packet.as_slice());
        result
    }

    /// The descriptors of the transmit ring.
    pub fn tx_ring(&self) -> (ring: &[TxDesc])
        ensures
            ring@ == self@.tx_ring,
    {
        self.tx_descs.as_slice()
    }

    /// The descriptors of the receive ring.
    pub fn rx_ring(&self) -> (ring: &[RxDesc])
        ensures
            ring@ == self@.rx_ring,
    {
        self.rx_descs.as_slice()
    }

    /// The first `len` bytes of transmit buffer `index`, as the card reads them.
    pub fn tx_buffer(&self, index: usize, len: usize) -> (bytes: Vec<u8>)
        requires
            self.wf(),
            index < TX_RING_SIZE,
            len <= MBUF_SIZE,
        ensures
            bytes@ == self@.tx_data.subrange(index * MBUF_SIZE, index * MBUF_SIZE + len),
    {
        copy_out(&self.tx_bytes, index * MBUF_SIZE, len)
    }

    /// The virtual address of transmit buffer `index`.
    pub fn tx_buffer_ptr(&self, index: usize) -> (addr: usize)
        requires
            self@.tx_buffers.vaddr + index * MBUF_SIZE <= usize::MAX,
        ensures
            addr == self@.tx_buffers.vaddr + index * MBUF_SIZE,
    {
        self.tx_buffers.vaddr + (index * MBUF_SIZE)
    }

    /// The virtual address of receive buffer `index`.
    pub fn rx_buffer_ptr(&self, index: usize) -> (addr: usize)
        requires
            self@.rx_buffers.vaddr + index * MBUF_SIZE <= usize::MAX,
        ensures
            addr == self@.rx_buffers.vaddr + index * MBUF_SIZE,
    {
        self.rx_buffers.vaddr + (index * MBUF_SIZE)
    }

    /// What the card does when it has received `frame` into receive buffer
    /// `index`: it writes the frame's bytes into the buffer and writes back the
    /// descriptor's fields from `desc`, leaving its buffer address alone.
    pub fn card_writes_rx(&mut self, index: usize, desc: RxDesc, frame: &[u8])
        requires
            old(self).wf(),
            index < RX_RING_SIZE,
            frame@.len() <= MBUF_SIZE,
        ensures
            final(self).wf(),
            final(self)@ == card_delivered(old(self)@, index as int, desc, frame@),
    {
        copy_into(&mut self.rx_bytes, index * MBUF_SIZE, frame);
        let addr = self.rx_descs[index].addr;
        self.rx_descs.set(index, RxDesc { addr, ..desc });
    }

    /// What the card does when it has sent the frame of transmit descriptor
    /// `index`: it sets the descriptor's done bit, handing it back.
    pub fn card_completes_tx(&mut self, index: usize)
        requires
            old(self).wf(),
            index < TX_RING_SIZE,
        ensures
            final(self).wf(),
            final(self)@ == (E1000View {
                tx_ring: old(self)@.tx_ring.update(
                    index as int,
                    TxDesc {
                        status: old(self)@.tx_ring[index as int].status | E1000_TXD_STAT_DD,
                        ..old(self)@.tx_ring[index as int]
                    },
                ),
                ..old(self)@
            }),
    {
        let mut descriptor = self.tx_descs[index];
        descriptor.status = descriptor.status | E1000_TXD_STAT_DD;
        self.tx_descs.set(index, descriptor);
    }

    /// Gives the four DMA regions back to the kernel (transmit ring, receive
    /// ring, transmit buffers, receive buffers), each once with its own page
    /// count, and returns the kernel functions.
    pub fn release(self) -> (kfn: K)
        ensures
            K::keeps_call_log() ==> kfn.calls() == self@.calls + release_calls(self@),
    {
        let ghost v = self@;
        let regions = self.dma_regions();
        let mut kfn = self.kfn;
        kfn.dma_free(regions[0].vaddr, regions[0].pages);
        kfn.dma_free(regions[1].vaddr, regions[1].pages);
        kfn.dma_free(regions[2].vaddr, regions[2].pages);
        kfn.dma_free(regions[3].vaddr, regions[3].pages);
        proof {
            if K::keeps_call_log() {
                assert(kfn.calls() =~= v.calls + release_calls(v));
            }
        }
        kfn
    }

    /// Builds the device over the register window `regs` and four backed DMA
    /// regions: the rings are reset and `init` programs the card.
    pub fn from_regions(
        kfn: K,
        regs: Vec<u32>,
        tx_ring: DmaRegion,
        rx_ring: DmaRegion,
        tx_buffers: DmaRegion,
        rx_buffers: DmaRegion,
    ) -> (r: Result<Self, Error>)
        requires
            regs@.len() == REG_COUNT,
        ensures
            r is Ok,
            r->Ok_0.wf(),
            r->Ok_0@ == initial_view(regs@, tx_ring, rx_ring, tx_buffers, rx_buffers, kfn.calls()),
    {
        let mut device = Self {
            regs,
            rx_ring,
            tx_ring,
            rx_buffers,
            tx_buffers,
            tx_descs: vec![TxDesc::empty(); TX_RING_SIZE],
            rx_descs: vec![RxDesc::empty(); RX_RING_SIZE],
            tx_bytes: vec![0u8; TX_RING_SIZE * MBUF_SIZE],
            rx_bytes: vec![0u8; RX_RING_SIZE * MBUF_SIZE],
            mac_address: [0, 0, 0, 0, 0, 0],
            kfn,
        };
        device.reset_rings();
        device.init()?;
        proof {
            let v = initial_view(regs@, tx_ring, rx_ring, tx_buffers, rx_buffers, kfn.calls());
            assert(device@.tx_data =~= v.tx_data);
            assert(device@.rx_data =~= v.rx_data);
        }
        Ok(device)
    }

    /// The MAC address in the receive address registers.
    fn read_mac_address(&self) -> (mac: [u8; 6])
        requires
            self.wf(),
        ensures
            mac@ == mac_of_ra(self@.regs[E1000_RA as int], self@.regs[E1000_RA + 1]),
    {
        let ral = self.read_reg(E1000_RA);
        let rah = self.read_reg(E1000_RA + 1);
        let mac = [
            (ral & 0xff) as u8,
            ((ral >> 8) & 0xff) as u8,
            ((ral >> 16) & 0xff) as u8,
            ((ral >> 24) & 0xff) as u8,
            (rah & 0xff) as u8,
            ((rah >> 8) & 0xff) as u8,
        ];
        assert({
            &&& (ral & 0xff) as u8 == ral as u8
            &&& ((ral >> 8) & 0xff) as u8 == (ral >> 8) as u8
            &&& ((ral >> 16) & 0xff) as u8 == (ral >> 16) as u8
            &&& ((ral >> 24) & 0xff) as u8 == (ral >> 24) as u8
            &&& (rah & 0xff) as u8 == rah as u8
            &&& ((rah >> 8) & 0xff) as u8 == (rah >> 8) as u8
        }) by (bit_vector);
        assert(mac@ =~= mac_of_ra(ral, rah));
        mac
    }
}

} // verus!
