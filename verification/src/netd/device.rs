//! The daemon's e1000 driver: bring-up decisions, register programming, and
//! the transmit and receive paths over rings of packed descriptors.

use vstd::prelude::*;
pub use crate::e1000::E1000RxToken;
use crate::e1000::mac_of_ra;
use crate::error::{Error, ErrorCode};
use crate::memory::{copy_into, copy_out, lemma_written_bytes_read_back, write_bytes};
use crate::netd::descriptor::{
    DescType, Descriptor, RxFields, TxFields, buffer_offset, built_descriptor, descriptor_offset,
    lemma_fields_of_word, lemma_ring_offsets_grow,
    lemma_rx_fields_determine_word, lemma_tx_fields_determine_word, ring_built, rx_fields_of,
    rx_word, tx_fields_of, tx_word,
};
use crate::netd::dma_info::{DmaInfo, DmaLayout, lemma_layout_bounds};
use crate::netd::dma_manager::DmaManager;
use crate::netd::mmio::{MMIO, MMIO_REGS};

verus! {

pub const REG_EEPROM: u32 = 0x0014;
pub const REG_CTL: u32 = 0x0;
pub const REG_STAT: u32 = 0x008;
pub const REG_RAL: u32 = 0x5400;
pub const REG_RAH: u32 = 0x5404;
pub const REG_IMS: u32 = 0x00D0;
pub const REG_RDTR: u32 = 0x2820;
pub const REG_RADV: u32 = 0x282C;
pub const REG_ICR: u32 = 0x00C0;
pub const REG_IMC: u32 = 0x00D8;

/// Reset.
pub const CTL_RST: u32 = 1 << 26;
/// Set Link Up.
pub const CTL_SLU: u32 = 0x0040;
/// Auto Speed Detection Enabled.
pub const CTL_ASDE: u32 = 0x0020;

pub const DMA_BASE_ADDRESS: usize = 0x6000_0000;

/// Multicast table start.
pub const REG_MTA: u32 = 0x5200;

pub const REG_TDBAL: u32 = 0x3800;
pub const REG_TDBAH: u32 = 0x3804;
pub const REG_TDLEN: u32 = 0x3808;
pub const REG_TDH: u32 = 0x3810;
pub const REG_TDT: u32 = 0x3818;
pub const REG_TCTL: u32 = 0x0400;
pub const REG_TIPG: u32 = 0x0410;

pub const REG_RDBAL: u32 = 0x2800;
pub const REG_RDBAH: u32 = 0x2804;
pub const REG_RDLEN: u32 = 0x2808;
pub const REG_RDH: u32 = 0x2810;
pub const REG_RDT: u32 = 0x2818;
pub const REG_RCTL: u32 = 0x0100;

/// Enable transmit.
pub const TCTL_EN: u32 = 0x00000002;
/// Pad short packets.
pub const TCTL_PSP: u32 = 0x00000008;
pub const TCTL_CT_SHIFT: u32 = 4;
pub const TCTL_COLD_SHIFT: u32 = 12;
/// Enable receive.
pub const RCTL_EN: u32 = 0x00000002;
/// Accept broadcast.
pub const RCTL_BAM: u32 = 0x00008000;
/// 4096-byte receive buffers (with `RCTL_BSEX`).
pub const RCTL_SZ_4096: u32 = 0x00030000;
/// Buffer size extension.
pub const RCTL_BSEX: u32 = 0x02000000;
/// Strip the Ethernet CRC.
pub const RCTL_SECRC: u32 = 0x04000000;

/// Descriptors in each ring.
pub const DESC_COUNT: u8 = 8;
/// Bytes in each packet buffer.
pub const BUFF_LEN: u16 = 4096;

/// The transmit control word: enable, pad short packets, collision threshold
/// 0x10 and collision distance 0x40.
pub const TCTL_VALUE: u32 = TCTL_EN | TCTL_PSP | (0x10 << TCTL_CT_SHIFT) | (0x40 << TCTL_COLD_SHIFT);
/// The inter-packet gap word: 10, 8 and 6.
pub const TIPG_VALUE: u32 = 10 | (8 << 10) | (6 << 20);
/// The receive control word: enable, broadcast, 4096-byte buffers, strip CRC.
pub const RCTL_VALUE: u32 = RCTL_EN | RCTL_BAM | RCTL_SZ_4096 | RCTL_BSEX | RCTL_SECRC;

// ---------------------------------------------------------------------------
// Bring-up decisions. Resetting the card, probing and reading the EEPROM and
// waiting for the link all poll registers that only the card changes; these
// functions decide what to write and what a value read means.
// ---------------------------------------------------------------------------

/// The control word that requests a reset.
pub fn reset_request(ctl: u32) -> (v: u32)
    ensures
        v == ctl | CTL_RST,
{
    ctl | CTL_RST
}

/// Whether the card has finished resetting.
pub fn reset_complete(ctl: u32) -> (done: bool)
    ensures
        done == (ctl & CTL_RST == 0),
{
    ctl & CTL_RST == 0
}

/// Whether an EEPROM answered: the done bit of the EEPROM register.
pub fn eeprom_present(val: u32) -> (found: bool)
    ensures
        found == (val & 0x10 != 0),
{
    val & 0x10 > 0
}

/// Reads of the EEPROM register that probing makes before it decides that no
/// EEPROM is present.
pub const EEPROM_PROBE_READS: u32 = 1000;

/// What EEPROM probing does after a read of the EEPROM register.
#[derive(Debug, Clone, Copy, PartialEq, Eq, Structural)]
pub enum EepromProbe {
    /// The read showed the done bit: an EEPROM is present.
    Present,
    /// Read again; the payload counts the reads made so far.
    ReadAgain(u32),
    /// `EEPROM_PROBE_READS` reads showed nothing: no EEPROM.
    Absent,
}

/// The step of EEPROM probing after `reads` reads showed nothing and one more
/// read returned `val`: the EEPROM is present once a read shows the done bit;
/// otherwise probing reads again, until `EEPROM_PROBE_READS` reads in all have
/// shown nothing.
pub fn eeprom_probe_step(reads: u32, val: u32) -> (next: EepromProbe)
    requires
        reads < EEPROM_PROBE_READS,
    ensures
        next == (if val & 0x10 != 0 {
            EepromProbe::Present
        } else if reads + 1 < EEPROM_PROBE_READS {
            EepromProbe::ReadAgain((reads + 1) as u32)
        } else {
            EepromProbe::Absent
        }),
{
    if eeprom_present(val) {
        EepromProbe::Present
    } else if reads + 1 < EEPROM_PROBE_READS {
        EepromProbe::ReadAgain(reads + 1)
    } else {
        EepromProbe::Absent
    }
}

/// The EEPROM register word that starts reading the word at `address`.
pub fn eeprom_read_command(address: u8) -> (v: u32)
    ensures
        v == 1 | ((address as u32) << 8),
{
    1 | ((address as u32) << 8)
}

/// The word an EEPROM read yields, once the register shows the done bit.
pub fn eeprom_read_result(val: u32) -> (word: Option<u16>)
    ensures
        word == (if val & 0b10000 == 0 {
            None
        } else {
            Some((val >> 16) as u16)
        }),
{
    if val & 0b10000 == 0 {
        None
    } else {
        Some((val >> 16) as u16)
    }
}

/// The control word that starts the link with auto speed detection.
pub fn link_start(ctl: u32) -> (v: u32)
    ensures
        v == ctl | CTL_SLU | CTL_ASDE,
{
    ctl | CTL_SLU | CTL_ASDE
}

/// The negotiated speed in Mbps that a status word reports, `-1` for a speed
/// code the card does not define, or `None` when the link is down.
pub fn link_speed(status: u32) -> (speed: Option<i32>)
    ensures
        speed == (if status & 0b10 == 0 {
            None
        } else {
            Some(speed_of_code((status & 0b1100_0000) >> 6))
        }),
{
    if status & 0b10 == 0 {
        return None;
    }
    let speed = match (status & 0b1100_0000) >> 6 {
        0 => 10,
        1 => 100,
        2 => 1000,
        _ => -1,
    };
    Some(speed)
}

/// The speed that a two-bit speed code stands for.
pub open spec fn speed_of_code(code: u32) -> i32 {
    if code == 0 {
        10
    } else if code == 1 {
        100
    } else if code == 2 {
        1000
    } else {
        -1i32
    }
}

/// The MAC address held in the first three EEPROM words, one byte per entry,
/// low byte of each word first.
pub open spec fn mac_of_eeprom(words: [u16; 3]) -> Seq<u16> {
    seq![
        words[0] & 0xff,
        words[0] >> 8,
        words[1] & 0xff,
        words[1] >> 8,
        words[2] & 0xff,
        words[2] >> 8,
    ]
}

/// The MAC address held in the first three EEPROM words.
pub fn mac_from_eeprom(words: [u16; 3]) -> (mac: [u16; 6])
    ensures
        mac@ == mac_of_eeprom(words),
        forall|i: int| 0 <= i < 6 ==> mac@[i] <= 0xff,
{
    let (temp1, temp2, temp3) = (words[0], words[1], words[2]);
    let mac = [temp1 & 0xff, temp1 >> 8, temp2 & 0xff, temp2 >> 8, temp3 & 0xff, temp3 >> 8];
    assert(temp1 & 0xff <= 0xff && temp2 & 0xff <= 0xff && temp3 & 0xff <= 0xff) by (bit_vector);
    assert(temp1 >> 8 <= 0xff && temp2 >> 8 <= 0xff && temp3 >> 8 <= 0xff) by (bit_vector);
    assert(mac@ =~= mac_of_eeprom(words));
    mac
}

/// Word `i` of a buffer read four bytes at a time, least significant first.
pub open spec fn le_word(buf: Seq<u8>, i: int) -> u32 {
    ((buf[3 + i * 4] as u32) << 24) | ((buf[2 + i * 4] as u32) << 16) | ((buf[1 + i * 4] as u32) << 8)
        | (buf[0 + i * 4] as u32)
}

/// The words that a hex dump of the first `len` bytes of `buf` shows, one per
/// whole group of four bytes; a last partial group is not shown.
pub fn hex_dump_words(buf: &[u8], len: usize) -> (words: Vec<u32>)
    requires
        len <= buf@.len(),
    ensures
        words@.len() == len / 4,
        forall|i: int| 0 <= i < len / 4 ==> #[trigger] words@[i] == le_word(buf@, i),
{
    let mut words: Vec<u32> = Vec::new();
    let count = (len - (len % 4)) / 4;
    let mut i: usize = 0;
    while i < count
        invariant
            count == len / 4,
            len <= buf@.len(),
            i <= count,
            words@.len() == i,
            forall|j: int| 0 <= j < i ==> #[trigger] words@[j] == le_word(buf@, j),
        decreases count - i,
    {
        assert(3 + i * 4 < len) by (nonlinear_arith)
            requires
                i < count,
                count == len / 4,
        ;
        let value = ((buf[3 + i * 4] as u32) << 24) | ((buf[2 + i * 4] as u32) << 16) | ((buf[1 + i
            * 4] as u32) << 8) | (buf[0 + i * 4] as u32);
        words.push(value);
        i = i + 1;
    }
    words
}

// ---------------------------------------------------------------------------
// The device.
// ---------------------------------------------------------------------------

/// The layout the daemon gives its DMA area: 8 descriptors per ring and
/// 4096-byte buffers.
pub open spec fn netd_layout() -> DmaLayout {
    DmaLayout { desc_count: DESC_COUNT as nat, buff_len: BUFF_LEN as nat }
}

/// The register index of a byte offset.
pub open spec fn idx(offset: u32) -> int {
    offset as int / 4
}

/// Whether register index `k` lies in the multicast table.
pub open spec fn in_multicast_table(k: int) -> bool {
    idx(REG_MTA) <= k < idx(REG_MTA) + 128
}

/// The value that bring-up programs into register index `k`, for a DMA area
/// backed at physical address `paddr` and a MAC read from `words`; `None`
/// for a register that it leaves alone.
pub open spec fn setup_value(k: int, paddr: usize, words: [u16; 3]) -> Option<u32> {
    if k == idx(REG_TDBAH) {
        Some(0)
    } else if k == idx(REG_TDBAL) {
        Some(paddr as u32)
    } else if k == idx(REG_TDLEN) {
        Some(128)
    } else if k == idx(REG_TDT) {
        Some(0)
    } else if k == idx(REG_TDH) {
        Some(0)
    } else if k == idx(REG_RDBAH) {
        Some(0)
    } else if k == idx(REG_RDBAL) {
        Some((paddr + 128) as u32)
    } else if k == idx(REG_RDLEN) {
        Some(128)
    } else if k == idx(REG_RDH) {
        Some(0)
    } else if k == idx(REG_RDT) {
        Some(7)
    } else if k == idx(REG_RAL) {
        Some(((words[1] as u32) << 16) | words[0] as u32)
    } else if k == idx(REG_RAH) {
        Some(words[2] as u32 | 0x8000_0000)
    } else if in_multicast_table(k) {
        Some(0)
    } else if k == idx(REG_TCTL) {
        Some(TCTL_VALUE)
    } else if k == idx(REG_TIPG) {
        Some(TIPG_VALUE)
    } else if k == idx(REG_RCTL) {
        Some(RCTL_VALUE)
    } else if k == idx(REG_RDTR) {
        Some(0)
    } else if k == idx(REG_RADV) {
        Some(0)
    } else if k == idx(REG_IMS) {
        Some(0x80)
    } else if k == idx(REG_IMC) {
        Some(u32::MAX)
    } else {
        None
    }
}

/// The register window after bring-up has programmed it.
pub open spec fn setup_image(before: Seq<u32>, paddr: usize, words: [u16; 3]) -> Seq<u32> {
    Seq::new(
        before.len(),
        |k: int|
            match setup_value(k, paddr, words) {
                Some(v) => v,
                None => before[k],
            },
    )
}

/// The two words of each descriptor of a ring.
pub open spec fn ring_words(ring: Seq<Descriptor>) -> Seq<(u64, u64)> {
    ring.map_values(|d: Descriptor| (d.addr_word(), d.fields_word()))
}

/// What the device holds, as values.
pub ghost struct DeviceView {
    /// The register window.
    pub regs: Seq<u32>,
    /// Each transmit descriptor's buffer address and second word.
    pub tx_ring: Seq<(u64, u64)>,
    /// Each receive descriptor's buffer address and second word.
    pub rx_ring: Seq<(u64, u64)>,
    /// The bytes of the transmit buffers, buffer after buffer.
    pub tx_data: Seq<u8>,
    /// The bytes of the receive buffers, buffer after buffer.
    pub rx_data: Seq<u8>,
    /// The MAC address, one byte per entry.
    pub mac: Seq<u16>,
    /// The physical base of the DMA area.
    pub paddr: usize,
    /// The virtual address of each transmit buffer.
    pub tx_bufs: Seq<usize>,
    /// The virtual address of each receive buffer.
    pub rx_bufs: Seq<usize>,
    /// The address the register window is mapped at.
    pub mmio_base: u32,
    /// The layout of the DMA area.
    pub layout: DmaLayout,
    /// The virtual base of the DMA area.
    pub vaddr: usize,
}

impl DeviceView {
    /// The transmit tail register.
    pub open spec fn tdt(self) -> u32 {
        self.regs[idx(REG_TDT)]
    }

    /// The receive tail register.
    pub open spec fn rdt(self) -> u32 {
        self.regs[idx(REG_RDT)]
    }
}

/// The e1000 card as the daemon drives it.
pub struct E1000Device {
    mmio: MMIO,
    dma_man: DmaManager,
    mac_addr: [u16; 6],
    tx_ring: Vec<Descriptor>,
    rx_ring: Vec<Descriptor>,
    tx_bufs: Vec<usize>,
    rx_bufs: Vec<usize>,
    tx_data: Vec<u8>,
    rx_data: Vec<u8>,
}

impl View for E1000Device {
    type V = DeviceView;

    closed spec fn view(&self) -> DeviceView {
        DeviceView {
            regs: self.mmio.regs(),
            tx_ring: ring_words(self.tx_ring@),
            rx_ring: ring_words(self.rx_ring@),
            tx_data: self.tx_data@,
            rx_data: self.rx_data@,
            mac: self.mac_addr@,
            paddr: self.dma_man.paddr()->Ok_0,
            tx_bufs: self.tx_bufs@,
            rx_bufs: self.rx_bufs@,
            mmio_base: self.mmio.base(),
            layout: self.dma_man.layout(),
            vaddr: self.dma_man.vaddr(),
        }
    }
}

/// The device's invariant, as its view shows it: a whole register window; a
/// DMA area of the daemon's layout at `DMA_BASE_ADDRESS`, backed at a physical
/// base that leaves room for it; rings of 8 descriptors each pointing at the
/// buffer of its own index; 8 buffers of 4096 bytes in each direction; tails
/// inside the rings; and a MAC of bytes.
pub open spec fn view_wf(v: DeviceView) -> bool {
    let l = netd_layout();
    &&& v.regs.len() == MMIO_REGS
    &&& v.layout == l
    &&& v.vaddr == DMA_BASE_ADDRESS
    &&& v.paddr + l.dma_len() <= usize::MAX
    &&& v.tx_ring.len() == 8
    &&& v.rx_ring.len() == 8
    &&& v.tx_bufs.len() == 8
    &&& v.rx_bufs.len() == 8
    &&& v.tx_data.len() == 8 * 4096
    &&& v.rx_data.len() == 8 * 4096
    &&& v.tdt() < 8
    &&& v.rdt() < 8
    &&& v.mac.len() == 6
    &&& forall|i: int| 0 <= i < 6 ==> v.mac[i] <= 0xff
    &&& forall|i: int|
        0 <= i < 8 ==> (#[trigger] v.tx_ring[i]).0 == buffer_paddr(v.paddr, DescType::Tx, i)
    &&& forall|i: int|
        0 <= i < 8 ==> (#[trigger] v.rx_ring[i]).0 == buffer_paddr(v.paddr, DescType::Rx, i)
    &&& forall|i: int|
        0 <= i < 8 ==> #[trigger] v.tx_bufs[i] == DMA_BASE_ADDRESS + buffer_offset(
            l,
            DescType::Tx,
            i,
        )
    &&& forall|i: int|
        0 <= i < 8 ==> #[trigger] v.rx_bufs[i] == DMA_BASE_ADDRESS + buffer_offset(
            l,
            DescType::Rx,
            i,
        )
}

/// The physical address of buffer `i` of a direction.
pub open spec fn buffer_paddr(paddr: usize, dtype: DescType, i: int) -> u64 {
    (paddr + buffer_offset(netd_layout(), dtype, i)) as u64
}

/// Bytes of the daemon's DMA area.
pub open spec fn netd_dma_len() -> usize {
    netd_layout().dma_len() as usize
}

/// The second word of a transmit descriptor handed to the card for a packet of
/// `len` bytes: end of packet and report status, nothing else.
pub open spec fn sent_word(len: nat) -> u64 {
    tx_word(TxFields { special: 0, css: 0, rsv_sta: 0, cmd: 0b1001, cso: 0, length: len as u16 })
}

/// The second word of a descriptor freshly handed back to the driver.
pub open spec fn reclaimed_tx_word() -> u64 {
    tx_word(TxFields { special: 0, css: 0, rsv_sta: 1, cmd: 0, cso: 0, length: 0 })
}

/// The error returned for a packet longer than a buffer.
pub open spec fn packet_too_long() -> Error {
    Error { code: ErrorCode::InvalidArgument, reason: "packet exceeds e1000 buffer size" }
}

/// The error returned when the next transmit descriptor is still the card's.
pub open spec fn tx_busy() -> Error {
    Error { code: ErrorCode::TryAgain, reason: "tx descriptor still owned by device" }
}

/// The ring registers that bring-up programs point the card at the rings
/// that `tx_from` and `rx_from` lay out: each base register holds the physical
/// address of the ring's first descriptor (the high halves zero), and each
/// length register the bytes of its 8 descriptors.
pub proof fn lemma_setup_points_card_at_rings(before: Seq<u32>, paddr: usize, words: [u16; 3])
    requires
        before.len() == MMIO_REGS,
    ensures
        setup_image(before, paddr, words)[idx(REG_TDBAL)] == (paddr + descriptor_offset(
            netd_layout(),
            DescType::Tx,
            0,
        )) as u32,
        setup_image(before, paddr, words)[idx(REG_RDBAL)] == (paddr + descriptor_offset(
            netd_layout(),
            DescType::Rx,
            0,
        )) as u32,
        setup_image(before, paddr, words)[idx(REG_TDBAH)] == 0,
        setup_image(before, paddr, words)[idx(REG_RDBAH)] == 0,
        setup_image(before, paddr, words)[idx(REG_TDLEN)] == descriptor_offset(
            netd_layout(),
            DescType::Tx,
            8,
        ) - descriptor_offset(netd_layout(), DescType::Tx, 0),
        setup_image(before, paddr, words)[idx(REG_RDLEN)] == descriptor_offset(
            netd_layout(),
            DescType::Rx,
            8,
        ) - descriptor_offset(netd_layout(), DescType::Rx, 0),
{
}

/// Bring-up leaves both rings empty for the card in the way the driver reads
/// them: the transmit head equals the transmit tail (nothing queued, both at
/// descriptor 0), and the receive head is the descriptor right after the
/// receive tail (every descriptor but the tail's is the card's to fill), which
/// is where `receive_frame` looks first.
pub proof fn lemma_setup_heads_follow_tails(before: Seq<u32>, paddr: usize, words: [u16; 3])
    requires
        before.len() == MMIO_REGS,
    ensures
        setup_image(before, paddr, words)[idx(REG_TDH)] == 0,
        setup_image(before, paddr, words)[idx(REG_TDT)] == 0,
        setup_image(before, paddr, words)[idx(REG_RDH)] == 0,
        setup_image(before, paddr, words)[idx(REG_RDT)] == 7,
        setup_image(before, paddr, words)[idx(REG_RDH)] as int == (setup_image(
            before,
            paddr,
            words,
        )[idx(REG_RDT)] + 1) % 8,
{
}

/// Bring-up clears the whole 4096-bit multicast table: all 128 words from
/// `REG_MTA` on read zero afterwards, whatever they held.
pub proof fn lemma_setup_clears_multicast_table(before: Seq<u32>, paddr: usize, words: [u16; 3])
    requires
        before.len() == MMIO_REGS,
    ensures
        forall|j: int|
            0 <= j < 128 ==> #[trigger] setup_image(before, paddr, words)[(REG_MTA + 4 * j) / 4] == 0,
{
}

/// The receive address registers that bring-up programs, read as the card
/// reads them (low byte first), hold the MAC address it reports.
pub proof fn lemma_receive_address_is_mac(before: Seq<u32>, paddr: usize, words: [u16; 3])
    requires
        before.len() == MMIO_REGS,
    ensures
        ({
            let img = setup_image(before, paddr, words);
            let ra = mac_of_ra(img[idx(REG_RAL)], img[idx(REG_RAH)]);
            forall|i: int| 0 <= i < 6 ==> ra[i] as u16 == #[trigger] mac_of_eeprom(words)[i]
        }),
{
    let (w0, w1, w2) = (words[0], words[1], words[2]);
    assert({
        let ral = ((w1 as u32) << 16) | w0 as u32;
        let rah = w2 as u32 | 0x8000_0000;
        &&& (ral as u8) as u16 == w0 & 0xff
        &&& ((ral >> 8) as u8) as u16 == w0 >> 8
        &&& ((ral >> 16) as u8) as u16 == w1 & 0xff
        &&& ((ral >> 24) as u8) as u16 == w1 >> 8
        &&& (rah as u8) as u16 == w2 & 0xff
        &&& ((rah >> 8) as u8) as u16 == w2 >> 8
    }) by (bit_vector);
}

/// The device after `packet` was handed to the card through the descriptor at
/// the transmit tail: the packet in the tail's buffer, the descriptor
/// rewritten for it, the tail one slot further around the ring.
pub open spec fn after_transmit(v: DeviceView, packet: Seq<u8>) -> DeviceView {
    let i = v.tdt() as int;
    DeviceView {
        regs: v.regs.update(idx(REG_TDT), ((i + 1) % 8) as u32),
        tx_ring: v.tx_ring.update(i, (v.tx_ring[i].0, sent_word(packet.len()))),
        tx_data: write_bytes(v.tx_data, i * 4096, packet),
        ..v
    }
}

/// The device after it was asked to transmit `packet`: unchanged when the
/// packet is longer than a buffer or the tail descriptor is still the card's,
/// else as `after_transmit` says.
pub open spec fn transmitted(v: DeviceView, packet: Seq<u8>) -> DeviceView {
    if packet.len() > 4096 || tx_fields_of(v.tx_ring[v.tdt() as int].1).rsv_sta & 1 == 0 {
        v
    } else {
        after_transmit(v, packet)
    }
}

/// The receive descriptor the driver looks at next: the one after the tail.
pub open spec fn next_rx(v: DeviceView) -> int {
    (v.rdt() + 1) % 8
}

/// The device after the driver took the descriptor after the receive tail:
/// its second word cleared and the tail moved onto it.
pub open spec fn after_receive(v: DeviceView) -> DeviceView {
    let i = next_rx(v);
    DeviceView {
        regs: v.regs.update(idx(REG_RDT), i as u32),
        rx_ring: v.rx_ring.update(i, (v.rx_ring[i].0, 0u64)),
        ..v
    }
}

/// The frame in the descriptor after the receive tail, once that descriptor
/// is done: `None` unless it ends a packet, else the bytes of its buffer up to
/// its length, cut to one buffer.
pub open spec fn received_frame(v: DeviceView) -> Option<Seq<u8>> {
    let i = next_rx(v);
    let f = rx_fields_of(v.rx_ring[i].1);
    if f.status & 0b10 == 0 {
        None
    } else {
        Some(
            v.rx_data.subrange(
                i * 4096,
                i * 4096 + if f.length < 4096 {
                    f.length as int
                } else {
                    4096
                },
            ),
        )
    }
}

/// A packet that `transmit_frame` accepts is in the buffer that the tail
/// descriptor points at when the card reads it: the descriptor keeps its
/// buffer address, holds the packet's length, ends the packet, asks for a
/// status report and is the card's (done bit clear), and the tail has moved
/// past it.
pub proof fn lemma_transmitted_packet_reaches_card(v: DeviceView, packet: Seq<u8>)
    requires
        v.tx_data.len() == 8 * 4096,
        v.tx_ring.len() == 8,
        v.regs.len() == MMIO_REGS,
        v.tdt() < 8,
        packet.len() <= 4096,
    ensures
        ({
            let i = v.tdt() as int;
            let w = after_transmit(v, packet);
            let f = tx_fields_of(w.tx_ring[i].1);
            &&& w.tx_data.subrange(i * 4096, i * 4096 + packet.len()) == packet
            &&& w.tx_ring[i].0 == v.tx_ring[i].0
            &&& f.length == packet.len()
            &&& f.cmd == 0b1001
            &&& f.rsv_sta & 1 == 0
            &&& w.tdt() == (i + 1) % 8
        }),
{
    let i = v.tdt() as int;
    assert(i * 4096 + packet.len() <= 8 * 4096) by (nonlinear_arith)
        requires
            0 <= i < 8,
            packet.len() <= 4096,
    ;
    lemma_written_bytes_read_back(v.tx_data, i * 4096, packet);
    assert(0u8 & 1 == 0) by (bit_vector);
    lemma_fields_of_word(
        TxFields { special: 0, css: 0, rsv_sta: 0, cmd: 0b1001, cso: 0, length: packet.len() as u16 },
        RxFields { special: 0, errors: 0, status: 0, chksum: 0, length: 0 },
    );
}

/// A frame that the card delivers into the descriptor after the receive tail,
/// with a second word that marks it done, ending a packet and holding the
/// frame's length, is exactly what `receive_frame` returns next; the ring then
/// moves on to the following descriptor.
pub proof fn lemma_delivered_frame_is_received(v: DeviceView, fields: u64, frame: Seq<u8>)
    requires
        v.rx_data.len() == 8 * 4096,
        v.rx_ring.len() == 8,
        v.regs.len() == MMIO_REGS,
        frame.len() <= 4096,
        rx_fields_of(fields).length == frame.len(),
        rx_fields_of(fields).status & 0b11 == 0b11,
    ensures
        ({
            let i = next_rx(v);
            let w = DeviceView {
                rx_ring: v.rx_ring.update(i, (v.rx_ring[i].0, fields)),
                rx_data: write_bytes(v.rx_data, i * 4096, frame),
                ..v
            };
            &&& rx_fields_of(w.rx_ring[i].1).status & 1 != 0
            &&& received_frame(w) == Some(frame)
            &&& after_receive(w).rdt() == i
            &&& next_rx(after_receive(w)) == (i + 1) % 8
        }),
{
    let i = next_rx(v);
    assert(i * 4096 + frame.len() <= 8 * 4096) by (nonlinear_arith)
        requires
            0 <= i < 8,
            frame.len() <= 4096,
    ;
    lemma_written_bytes_read_back(v.rx_data, i * 4096, frame);
    let st = rx_fields_of(fields).status;
    assert(st & 0b11 == 0b11 ==> st & 1 != 0 && st & 0b10 != 0) by (bit_vector);
}

impl E1000Device {
    /// The device's invariant: a backed DMA area of the daemon's layout, rings
    /// of 8 descriptors each pointing at its own buffer, tails inside the rings
    /// and a MAC of bytes.
    pub closed spec fn wf(&self) -> bool {
        let v = self@;
        let l = netd_layout();
        &&& self.mmio.wf()
        &&& self.dma_man.allocated()
        &&& self.tx_ring@.len() == 8
        &&& self.rx_ring@.len() == 8
        &&& view_wf(v)
    }

    /// Programs the rings, the receive address, the multicast table and the
    /// control registers, as bring-up does once the DMA area is backed.
    fn program_registers(mmio: &mut MMIO, dma_man: &DmaManager, base: usize, eeprom_words: [u16; 3])
        requires
            old(mmio).wf(),
            dma_man.layout() == netd_layout(),
            dma_man.paddr() == Ok::<usize, Error>(base),
            base + netd_layout().dma_len() <= usize::MAX,
        ensures
            final(mmio).wf(),
            final(mmio).base() == old(mmio).base(),
            final(mmio).regs() == setup_image(old(mmio).regs(), dma_man.paddr()->Ok_0, eeprom_words),
    {
        let ghost before = mmio.regs();
        let ghost paddr = dma_man.paddr()->Ok_0;
        proof {
            lemma_layout_bounds(netd_layout());
        }
        let (temp1, temp2, temp3) = (eeprom_words[0], eeprom_words[1], eeprom_words[2]);

        // Write TX ring info to e1000 registers
        let tx_addr = dma_man.info().tx_ring_offset() + base;
        mmio.write(REG_TDBAH, 0);
        mmio.write(REG_TDBAL, tx_addr as u32);
        mmio.write(REG_TDLEN, dma_man.info().ring_len() as u32);
        mmio.write(REG_TDT, 0);
        mmio.write(REG_TDH, 0);

        // Write RX ring info to e1000 registers
        let rx_addr = dma_man.info().rx_ring_offset() + base;
        mmio.write(REG_RDBAH, 0);
        mmio.write(REG_RDBAL, rx_addr as u32);
        mmio.write(REG_RDLEN, dma_man.info().ring_len() as u32);
        mmio.write(REG_RDH, 0);
        mmio.write(REG_RDT, (dma_man.info().desc_count() as u32) - 1);

        // Write MAC to Receive Address
        let ral: u32 = ((temp2 as u32) << 16) | temp1 as u32;
        let rah: u32 = temp3 as u32;
        mmio.write(REG_RAL, ral);
        mmio.write(REG_RAH, rah | (1 << 31));

        assert((1u32 << 31u32) == 0x8000_0000u32) by (bit_vector);
        let ghost staged = mmio.regs();
        assert forall|k: int| 0 <= k < MMIO_REGS && !in_multicast_table(k) && k != idx(REG_TCTL)
            && k != idx(REG_TIPG) && k != idx(REG_RCTL) && k != idx(REG_RDTR) && k != idx(REG_RADV)
            && k != idx(REG_IMS) && k != idx(REG_IMC) implies #[trigger] staged[k] == match setup_value(
            k,
            paddr,
            eeprom_words,
        ) {
            Some(v) => v,
            None => before[k],
        } by {}

        // Setup multicast table array
        let mut i: u32 = 0;
        while i < 128
            invariant
                i <= 128,
                mmio.wf(),
                mmio.base() == old(mmio).base(),
                forall|k: int|
                    0 <= k < MMIO_REGS ==> #[trigger] mmio.regs()[k] == if in_multicast_table(k) && k
                        < idx(REG_MTA) + i {
                        0
                    } else {
                        staged[k]
                    },
            decreases 128 - i,
        {
            mmio.write(REG_MTA + (i * 4), 0);
            i = i + 1;
        }

        mmio.write(REG_TCTL, TCTL_EN | TCTL_PSP | (0x10 << TCTL_CT_SHIFT) | (0x40 << TCTL_COLD_SHIFT));
        mmio.write(REG_TIPG, 10 | (8 << 10) | (6 << 20));
        mmio.write(REG_RCTL, RCTL_EN | RCTL_BAM | RCTL_SZ_4096 | RCTL_BSEX | RCTL_SECRC);

        // Intel docs recommends not setting certain bit ranges of these registers
        // so we forcefully reset them as a safety measure
        mmio.write(REG_RDTR, 0);
        mmio.write(REG_RADV, 0);

        // Receiver descriptor write back
        mmio.write(REG_IMS, 1 << 7);

        // Disabling interrupts
        mmio.write(REG_IMC, u32::MAX);
        let _ = mmio.read(REG_ICR);
        assert((1u32 << 7u32) == 0x80u32) by (bit_vector);
        assert(mmio.regs() =~= setup_image(before, paddr, eeprom_words));
    }

    /// Sets up the rings and programs the card, once bring-up has reset it,
    /// read the first three EEPROM words and found the link up. The DMA area
    /// of `DMA_BASE_ADDRESS` is backed through `dma_alloc` (handed the virtual
    /// base and the area's length); if that fails its error is returned.
    /// Otherwise the rings are built over the cleared area (transmit
    /// descriptors handed back to the driver, receive descriptors empty) and
    /// the registers are programmed as `setup_image` says.
    pub fn init<F: FnOnce(usize, usize) -> Result<usize, Error>>(
        mmio: MMIO,
        eeprom_words: [u16; 3],
        dma_alloc: F,
    ) -> (r: Result<Self, Error>)
        requires
            mmio.wf(),
            call_requires(dma_alloc, (DMA_BASE_ADDRESS, netd_dma_len())),
            forall|p: Result<usize, Error>|
                #[trigger] call_ensures(dma_alloc, (DMA_BASE_ADDRESS, netd_dma_len()), p) && p is Ok
                    ==> p->Ok_0 + netd_layout().dma_len() <= usize::MAX,
        ensures
            match r {
                Ok(d) => {
                    &&& d.wf()
                    &&& view_wf(d@)
                    &&& d@.mmio_base == mmio.base()
                    &&& call_ensures(
                        dma_alloc,
                        (DMA_BASE_ADDRESS, netd_dma_len()),
                        Ok::<usize, Error>(d@.paddr),
                    )
                    &&& d@.regs == setup_image(mmio.regs(), d@.paddr, eeprom_words)
                    &&& d@.mac == mac_of_eeprom(eeprom_words)
                    &&& forall|i: int| 0 <= i < 8 ==> (#[trigger] d@.tx_ring[i]).1 == reclaimed_tx_word()
                    &&& forall|i: int| 0 <= i < 8 ==> (#[trigger] d@.rx_ring[i]).1 == 0
                    &&& forall|k: int| 0 <= k < 8 * 4096 ==> #[trigger] d@.tx_data[k] == 0
                    &&& forall|k: int| 0 <= k < 8 * 4096 ==> #[trigger] d@.rx_data[k] == 0
                },
                Err(e) => call_ensures(
                    dma_alloc,
                    (DMA_BASE_ADDRESS, netd_dma_len()),
                    Err::<usize, Error>(e),
                ),
            },
    {
        let mut mmio = mmio;
        let mac = mac_from_eeprom(eeprom_words);
        let mut dma_man = DmaManager::new(DmaInfo::new(DESC_COUNT, BUFF_LEN), DMA_BASE_ADDRESS);
        proof {
            lemma_layout_bounds(netd_layout());
        }
        dma_man.allocate(dma_alloc)?;
        let (tx_ring, _tx_descs, tx_bufs) = Descriptor::tx_from(&dma_man)?;
        let (rx_ring, _rx_descs, rx_bufs) = Descriptor::rx_from(&dma_man)?;
        let paddr = dma_man.base_paddr()?;
        Self::program_registers(&mut mmio, &dma_man, paddr, eeprom_words);
        let buffers_len = (dma_man.info().desc_count() as usize) * (dma_man.info().buff_len() as usize);
        let tx_data = vec![0u8; buffers_len];
        let rx_data = vec![0u8; buffers_len];
        let d = Self { mmio, dma_man, mac_addr: mac, tx_ring, rx_ring, tx_bufs, rx_bufs, tx_data, rx_data };
        proof {
            assert forall|i: int| 0 <= i < 8 implies (#[trigger] d@.tx_ring[i]).0 == buffer_paddr(d@.paddr, DescType::Tx, i) && d@.tx_ring[i].1 == reclaimed_tx_word() by {
                assert(built_descriptor(&d.dma_man, DescType::Tx, i, d.tx_ring@[i]));
            }
            assert forall|i: int| 0 <= i < 8 implies (#[trigger] d@.rx_ring[i]).0 == buffer_paddr(d@.paddr, DescType::Rx, i) && d@.rx_ring[i].1 == 0 by {
                assert(built_descriptor(&d.dma_man, DescType::Rx, i, d.rx_ring@[i]));
            }
        }
        Ok(d)
    }

    /// Hands `packet` to the card through the descriptor at the transmit tail.
    ///
    /// A packet longer than a buffer is refused, and so is any packet while the
    /// tail descriptor is still the card's (status bit 0 clear); neither changes
    /// anything. Otherwise the packet is copied into the tail's buffer, the
    /// descriptor is rewritten for it (length, end of packet and report status,
    /// every other field zero), the tail moves one slot around the ring, and
    /// the packet's length is returned.
    pub fn transmit_frame(&mut self, packet: &[u8]) -> (r: Result<usize, Error>)
        requires
            old(self).wf(),
        ensures
            final(self).wf(),
            ({
                let v = old(self)@;
                let i = v.tdt() as int;
                let f = tx_fields_of(v.tx_ring[i].1);
                if packet@.len() > 4096 {
                    r == Err::<usize, Error>(packet_too_long()) && final(self)@ == v
                } else if f.rsv_sta & 1 == 0 {
                    r == Err::<usize, Error>(tx_busy()) && final(self)@ == v
                } else {
                    r == Ok::<usize, Error>(packet@.len() as usize) && final(self)@ == after_transmit(
                        v,
                        packet@,
                    )
                }
            }),
    {
        if packet.len() > self.dma_man.info().buff_len() as usize {
            return Err(Error::new(ErrorCode::InvalidArgument, "packet exceeds e1000 buffer size"));
        }
        let index = self.mmio.read(REG_TDT) as usize;
        let buff_address = index * (self.dma_man.info().buff_len() as usize);

        // Check [Descriptor Done]
        if self.tx_ring[index].get_tx_rsv_sta() & 1 == 0 {
            return Err(Error::new(ErrorCode::TryAgain, "tx descriptor still owned by device"));
        }
        copy_into(&mut self.tx_data, buff_address, packet);

        let ghost old_desc = self.tx_ring@[index as int];
        let mut desc = Descriptor::zeroed();
        std::mem::swap(&mut desc, &mut self.tx_ring[index]);
        desc.set_tx_length(packet.len() as u16);
        desc.set_tx_cso(0);
        desc.set_tx_cmd(0b1001);
        desc.set_tx_rsv_sta(0);
        desc.set_tx_css(0);
        desc.set_tx_special(0);
        proof {
            lemma_tx_fields_determine_word(desc.fields_word());
        }
        self.tx_ring.set(index, desc);

        self.mmio.write(REG_TDT, (index as u32 + 1) % self.dma_man.info().desc_count() as u32);
        let _ = self.mmio.read(REG_STAT);  // Flush
        proof {
            assert(ring_words(self.tx_ring@) =~= ring_words(old(self).tx_ring@).update(
                index as int,
                (old_desc.addr_word(), sent_word(packet@.len())),
            ));
            assert(self@ == after_transmit(old(self)@, packet@));
            assert forall|i: int| 0 <= i < 8 implies (#[trigger] self@.tx_ring[i]).0 == buffer_paddr(
                self@.paddr,
                DescType::Tx,
                i,
            ) by {
                assert(old(self)@.tx_ring[i].0 == buffer_paddr(old(self)@.paddr, DescType::Tx, i));
            }
        }
        Ok(packet.len())
    }

    /// Takes the frame the card left in the descriptor after the receive tail.
    ///
    /// Nothing changes while that descriptor is not done (status bit 0 clear).
    /// Otherwise its frame is returned when the descriptor ends a packet
    /// (status bit 1), cut to one buffer; the descriptor's second word is
    /// cleared and the tail moves onto it, handing it back to the card.
    pub fn receive_frame(&mut self) -> (r: Option<Vec<u8>>)
        requires
            old(self).wf(),
        ensures
            final(self).wf(),
            ({
                let v = old(self)@;
                if rx_fields_of(v.rx_ring[next_rx(v)].1).status & 1 == 0 {
                    r is None && final(self)@ == v
                } else {
                    &&& final(self)@ == after_receive(v)
                    &&& match r {
                        None => received_frame(v) is None,
                        Some(frame) => received_frame(v) == Some(frame@),
                    }
                }
            }),
    {
        let index = (self.mmio.read(REG_RDT) + 1) % self.dma_man.info().desc_count() as u32;
        let buff_address = (index as usize) * (self.dma_man.info().buff_len() as usize);
        let status = self.rx_ring[index as usize].get_rx_status();

        if status & 1 == 0 {
            // Check [Descriptor Done]
            return None;
        }
        let frame = if status & 0b10 == 0 {
            // Check [End Of Packet]
            None
        } else {
            let rx_length = self.rx_ring[index as usize].get_rx_length();
            let buff_len = self.dma_man.info().buff_len();
            let length = (if rx_length < buff_len {
                rx_length
            } else {
                buff_len
            }) as usize;
            Some(copy_out(&self.rx_data, buff_address, length))
        };

        let ghost old_desc = self.rx_ring@[index as int];
        let mut desc = Descriptor::zeroed();
        std::mem::swap(&mut desc, &mut self.rx_ring[index as usize]);
        desc.set_rx_length(0);
        desc.set_rx_chksum(0);
        desc.set_rx_status(0);
        desc.set_rx_errors(0);
        desc.set_rx_special(0);
        proof {
            lemma_rx_fields_determine_word(desc.fields_word());
            assert(rx_word(RxFields { special: 0, errors: 0, status: 0, chksum: 0, length: 0 }) == 0)
                by (bit_vector);
        }
        self.rx_ring.set(index as usize, desc);

        self.mmio.write(REG_RDT, index);
        let _ = self.mmio.read(REG_STAT);  // Flush
        proof {
            assert(ring_words(self.rx_ring@) =~= ring_words(old(self).rx_ring@).update(
                index as int,
                (old_desc.addr_word(), 0u64),
            ));
            assert(self@ == after_receive(old(self)@));
            assert forall|i: int| 0 <= i < 8 implies (#[trigger] self@.rx_ring[i]).0 == buffer_paddr(
                self@.paddr,
                DescType::Rx,
                i,
            ) by {
                assert(old(self)@.rx_ring[i].0 == buffer_paddr(old(self)@.paddr, DescType::Rx, i));
            }
        }
        frame
    }

    /// The MAC address read at bring-up.
    pub fn mac_address(&self) -> (mac: [u8; 6])
        requires
            self.wf(),
        ensures
            forall|i: int| 0 <= i < 6 ==> mac@[i] as u16 == self@.mac[i],
    {
        [
            self.mac_addr[0] as u8,
            self.mac_addr[1] as u8,
            self.mac_addr[2] as u8,
            self.mac_addr[3] as u8,
            self.mac_addr[4] as u8,
            self.mac_addr[5] as u8,
        ]
    }

    /// Lets `f` fill a zeroed packet of `len` bytes, then transmits it;
    /// returns what `f` returned. A refused transmission is dropped.
    pub fn transmit_with<R, F: FnOnce(&mut [u8]) -> R>(&mut self, len: usize, f: F) -> (r: R)
        requires
            old(self).wf(),
            forall|s: &mut [u8]| call_requires(f, (s,)),
        ensures
            final(self).wf(),
            exists|s: &mut [u8]|
                {
                    &&& #[trigger] call_ensures(f, (s,), r)
                    &&& s@ == Seq::new(len as nat, |i: int| 0u8)
                    &&& final(self)@ == transmitted(old(self)@, final(s)@)
                },
    {
        let mut packet: Vec<u8> = vec![0u8; len];
        let slice = packet.as_mut_slice();
        let result = f(slice);
        let _ = self.transmit_frame(packet.as_slice());
        result
    }

    /// The register window.
    pub fn mmio(&self) -> (m: &MMIO)
        requires
            self.wf(),
        ensures
            m.regs() == self@.regs,
            m.wf(),
    {
        &self.mmio
    }

    /// The descriptors of the transmit ring.
    pub fn tx_ring(&self) -> (ring: &[Descriptor])
        ensures
            ring_words(ring@) == self@.tx_ring,
    {
        self.tx_ring.as_slice()
    }

    /// The descriptors of the receive ring.
    pub fn rx_ring(&self) -> (ring: &[Descriptor])
        ensures
            ring_words(ring@) == self@.rx_ring,
    {
        self.rx_ring.as_slice()
    }

    /// The virtual address of each transmit buffer.
    pub fn tx_bufs(&self) -> (bufs: &[usize])
        ensures
            bufs@ == self@.tx_bufs,
    {
        self.tx_bufs.as_slice()
    }

    /// The virtual address of each receive buffer.
    pub fn rx_bufs(&self) -> (bufs: &[usize])
        ensures
            bufs@ == self@.rx_bufs,
    {
        self.rx_bufs.as_slice()
    }

    /// The first `len` bytes of transmit buffer `index`, as the card reads them.
    pub fn tx_buffer(&self, index: usize, len: usize) -> (bytes: Vec<u8>)
        requires
            self.wf(),
            index < 8,
            len <= 4096,
        ensures
            bytes@ == self@.tx_data.subrange(index * 4096, index * 4096 + len),
    {
        copy_out(&self.tx_data, index * 4096, len)
    }

    /// What the card does when it has received `frame` into receive buffer
    /// `index`: it writes the frame's bytes into the buffer and writes back the
    /// descriptor's second word.
    pub fn card_writes_rx(&mut self, index: usize, fields: u64, frame: &[u8])
        requires
            old(self).wf(),
            index < 8,
            frame@.len() <= 4096,
        ensures
            final(self).wf(),
            final(self)@ == (DeviceView {
                rx_ring: old(self)@.rx_ring.update(index as int, (old(self)@.rx_ring[index as int].0, fields)),
                rx_data: write_bytes(old(self)@.rx_data, index * 4096, frame@),
                ..old(self)@
            }),
    {
        copy_into(&mut self.rx_data, index * 4096, frame);
        let ghost old_ring = self.rx_ring@;
        let mut desc = Descriptor::zeroed();
        std::mem::swap(&mut desc, &mut self.rx_ring[index]);
        let addr = desc.get_buff_address();
        let mut written = Descriptor::zeroed();
        written.set_buff_address(addr);
        written.set_fields(fields);
        self.rx_ring.set(index, written);
        proof {
            assert(ring_words(self.rx_ring@) =~= ring_words(old_ring).update(index as int, (old_ring[index as int].addr_word(), fields)));
        }
    }

    /// What the card does when it has sent the frame of transmit descriptor
    /// `index`: it sets bit 0 (done) of the status byte, handing it back.
    pub fn card_completes_tx(&mut self, index: usize)
        requires
            old(self).wf(),
            index < 8,
        ensures
            final(self).wf(),
            final(self)@ == (DeviceView {
                tx_ring: old(self)@.tx_ring.update(
                    index as int,
                    (
                        old(self)@.tx_ring[index as int].0,
                        tx_word(
                            TxFields {
                                rsv_sta: tx_fields_of(old(self)@.tx_ring[index as int].1).rsv_sta | 1,
                                ..tx_fields_of(old(self)@.tx_ring[index as int].1)
                            },
                        ),
                    ),
                ),
                ..old(self)@
            }),
    {
        let ghost old_ring = self.tx_ring@;
        let mut desc = Descriptor::zeroed();
        std::mem::swap(&mut desc, &mut self.tx_ring[index]);
        let sta = desc.get_tx_rsv_sta();
        desc.set_tx_rsv_sta(sta | 1);
        proof {
            lemma_tx_fields_determine_word(desc.fields_word());
        }
        self.tx_ring.set(index, desc);
        proof {
            assert(ring_words(self.tx_ring@) =~= ring_words(old_ring).update(
                index as int,
                (
                    old_ring[index as int].addr_word(),
                    tx_word(
                        TxFields {
                            rsv_sta: tx_fields_of(old_ring[index as int].fields_word()).rsv_sta | 1,
                            ..tx_fields_of(old_ring[index as int].fields_word())
                        },
                    ),
                ),
            ));
        }
    }

    /// What the invariant tells about the device's view (see `view_wf`).
    /// Every descriptor of a device holds the full physical address of the
    /// buffer of its index: the DMA area's physical base plus the buffer's
    /// offset in the area, with no bit of it dropped.
    pub proof fn lemma_descriptors_hold_buffer_addresses(&self)
        requires
            self.wf(),
        ensures
            forall|i: int|
                0 <= i < 8 ==> (#[trigger] self@.tx_ring[i]).0 == self@.paddr + buffer_offset(
                    netd_layout(),
                    DescType::Tx,
                    i,
                ),
            forall|i: int|
                0 <= i < 8 ==> (#[trigger] self@.rx_ring[i]).0 == self@.paddr + buffer_offset(
                    netd_layout(),
                    DescType::Rx,
                    i,
                ),
    {
        let v = self@;
        let l = netd_layout();
        lemma_layout_bounds(l);
        assert forall|i: int| 0 <= i < 8 implies (#[trigger] v.tx_ring[i]).0 == v.paddr
            + buffer_offset(l, DescType::Tx, i) by {
            lemma_ring_offsets_grow(l, DescType::Tx, i, 7);
            assert(buffer_offset(l, DescType::Tx, 7) + l.buff_len <= l.dma_len());
        }
        assert forall|i: int| 0 <= i < 8 implies (#[trigger] v.rx_ring[i]).0 == v.paddr
            + buffer_offset(l, DescType::Rx, i) by {
            lemma_ring_offsets_grow(l, DescType::Rx, i, 7);
            assert(buffer_offset(l, DescType::Rx, 7) + l.buff_len <= l.dma_len());
        }
    }

    pub proof fn lemma_wf(&self)
        requires
            self.wf(),
        ensures
            view_wf(self@),
    {
    }
}

} // verus!
