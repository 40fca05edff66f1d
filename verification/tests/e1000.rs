use nanvix_net::e1000::{
    CallLog,
    E1000Device, KernelFunctions, RxDesc, TxDesc, DmaRegion, E1000RxToken, E1000_CTL, E1000_CTL_RST,
    E1000_CTL_SLU, E1000_MTA, E1000_RA, E1000_RCTL, E1000_RDBAH, E1000_RDBAL, E1000_RDLEN,
    E1000_RDT, E1000_RXD_STAT_DD, E1000_RXD_STAT_EOP, E1000_TCTL, E1000_TDBAH, E1000_TDBAL,
    E1000_TDLEN,
    E1000_TDT, E1000_TIPG, E1000_TXD_CMD_EOP, E1000_TXD_CMD_RS, E1000_TXD_STAT_DD, MBUF_SIZE,
    REG_COUNT, RX_BUFFER_PAGES, RX_RING_PAGES, RX_RING_SIZE, TX_BUFFER_PAGES, TX_RING_PAGES,
    TX_RING_SIZE,
};
use nanvix_net::e1000_for_nanvix::{NanvixKernelFunctions, DMA_VADDR_BASE};
use nanvix_net::error::{Error, ErrorCode};
use std::collections::BTreeMap;

const PAGE_SIZE: usize = 4096;

/// Hands out page-aligned addresses and keeps track of what is allocated.
struct FakeKernel {
    allocations: BTreeMap<usize, usize>,
    next: usize,
    fail_after: Option<usize>,
    requests: Vec<usize>,
    frees: Vec<(usize, usize)>,
}

impl FakeKernel {
    fn new() -> Self {
        Self {
            allocations: BTreeMap::new(),
            next: 0x10_0000,
            fail_after: None,
            requests: Vec::new(),
            frees: Vec::new(),
        }
    }

    fn failing_after(n: usize) -> Self {
        Self { fail_after: Some(n), ..Self::new() }
    }
}

impl KernelFunctions for FakeKernel {
    fn dma_alloc(&mut self, pages: usize) -> (usize, usize) {
        self.requests.push(pages);
        if let Some(n) = self.fail_after {
            if self.allocations.len() >= n {
                return (0, 0);
            }
        }
        let addr = self.next;
        self.next += pages * PAGE_SIZE;
        self.allocations.insert(addr, pages);
        (addr, addr + 0x8000_0000)
    }

    fn dma_free(&mut self, vaddr: usize, pages: usize) {
        self.frees.push((vaddr, pages));
        self.allocations.remove(&vaddr);
    }
}

fn device() -> E1000Device<FakeKernel> {
    E1000Device::new(FakeKernel::new(), vec![0u32; REG_COUNT]).unwrap()
}

#[test]
fn transmit_writes_descriptor_and_buffer() {
    let regs = vec![0u32; REG_COUNT];
    let mut device = E1000Device::new(FakeKernel::new(), regs).unwrap();

    let frame = [0xde, 0xad, 0xbe, 0xef];
    let written = device.transmit_frame(&frame).unwrap();

    assert_eq!(written, frame.len());
    assert_eq!(device.read_reg(E1000_TDT), 1);

    let desc = device.tx_ring()[0];
    assert_eq!(desc.length, frame.len() as u16);
    assert_eq!(desc.cmd, (E1000_TXD_CMD_EOP | E1000_TXD_CMD_RS) as u8);

    let bytes = device.tx_buffer(0, frame.len());
    assert_eq!(bytes, frame);
}

#[test]
fn receive_returns_completed_frame_and_reclaims_descriptor() {
    let regs = vec![0u32; REG_COUNT];
    let mut device = E1000Device::new(FakeKernel::new(), regs).unwrap();

    let payload = [1u8, 2, 3, 4, 5];
    let mut desc = device.rx_ring()[0];
    desc.length = payload.len() as u16;
    desc.status = E1000_RXD_STAT_DD | E1000_RXD_STAT_EOP;
    device.card_writes_rx(0, desc, &payload);
    device.write_reg(E1000_RDT, (RX_RING_SIZE - 1) as u32);

    let frame = device.receive_frame().unwrap();
    assert_eq!(frame, payload);
    assert_eq!(device.read_reg(E1000_RDT), 0);
    assert_eq!(device.rx_ring()[0].status, 0);
}

#[test]
fn new_allocates_regions_in_order() {
    let d = device();
    let kfn = d.release();
    assert!(kfn.allocations.is_empty());
    let mut k = FakeKernel::new();
    let (a, _) = k.dma_alloc(TX_RING_PAGES);
    assert_eq!(a, 0x10_0000);
    assert_eq!(TX_RING_PAGES, 1);
    assert_eq!(RX_RING_PAGES, 1);
    assert_eq!(TX_BUFFER_PAGES, 128);
    assert_eq!(RX_BUFFER_PAGES, 128);
}

#[test]
fn new_fails_when_kernel_has_no_memory() {
    for n in 0..4 {
        let r = E1000Device::new(FakeKernel::failing_after(n), vec![0u32; REG_COUNT]);
        match r {
            Err(e) => {
                assert_eq!(e.code, ErrorCode::OutOfMemory);
                let expected = ["tx descriptor ring", "rx descriptor ring", "tx buffers", "rx buffers"][n];
                assert_eq!(e.reason, expected);
            }
            Ok(_) => panic!("allocation {} should have failed", n),
        }
    }
}

#[test]
fn init_programs_registers() {
    let mut regs = vec![0u32; REG_COUNT];
    regs[E1000_CTL] = 0x1;
    regs[E1000_MTA + 5] = 0xffff;
    regs[E1000_RA] = 0x5634_1252;
    regs[E1000_RA + 1] = 0x8000_9a78;
    let d = E1000Device::new(FakeKernel::new(), regs).unwrap();
    assert_eq!(d.read_reg(E1000_CTL), 0x1 | E1000_CTL_RST | E1000_CTL_SLU);
    assert_eq!(d.read_reg(E1000_TCTL), 0x0004_010A);
    assert_eq!(d.read_reg(E1000_TIPG), 0x0060_200A);
    assert_eq!(d.read_reg(E1000_RCTL), 0x0400_8002);
    assert_eq!(d.read_reg(E1000_TDLEN), 4096);
    assert_eq!(d.read_reg(E1000_RDLEN), 4096);
    assert_eq!(d.read_reg(E1000_TDT), 0);
    assert_eq!(d.read_reg(E1000_RDT), 255);
    assert_eq!(d.read_reg(E1000_MTA + 5), 0);
    // The transmit ring is allocated first, the receive ring second.
    assert_eq!(d.read_reg(E1000_TDBAL), (0x10_0000usize + 0x8000_0000) as u32);
    assert_eq!(d.read_reg(E1000_RDBAL), (0x10_1000usize + 0x8000_0000) as u32);
    assert_eq!(d.read_reg(E1000_RDBAH), 0);
    assert_eq!(d.hardware_addr(), [0x52, 0x12, 0x34, 0x56, 0x78, 0x9a]);
}

#[test]
fn reset_rings_point_descriptors_at_their_buffers() {
    let d = device();
    // tx buffers are the third region, rx buffers the fourth
    let tx_buffers_dma = 0x10_2000u64 + 0x8000_0000;
    let rx_buffers_dma = tx_buffers_dma + (TX_BUFFER_PAGES * PAGE_SIZE) as u64;
    for i in [0usize, 1, 255] {
        let t = d.tx_ring()[i];
        assert_eq!(t.addr, tx_buffers_dma + (i * MBUF_SIZE) as u64);
        assert_eq!(t.status, E1000_TXD_STAT_DD);
        assert_eq!(t.length, 0);
        let r = d.rx_ring()[i];
        assert_eq!(r.addr, rx_buffers_dma + (i * MBUF_SIZE) as u64);
        assert_eq!(r.status, 0);
    }
    assert_eq!(d.tx_buffer_ptr(2), 0x10_2000 + 2 * MBUF_SIZE);
    assert_eq!(d.rx_buffer_ptr(1), 0x10_2000 + TX_BUFFER_PAGES * PAGE_SIZE + MBUF_SIZE);
}

#[test]
fn transmit_rejects_oversized_packet() {
    let mut d = device();
    let big = vec![7u8; MBUF_SIZE + 1];
    let e = d.transmit_frame(&big).unwrap_err();
    assert_eq!(e.code, ErrorCode::InvalidArgument);
    assert_eq!(e.reason, "packet exceeds e1000 buffer size");
    assert_eq!(d.read_reg(E1000_TDT), 0);
    let exact = vec![7u8; MBUF_SIZE];
    assert_eq!(d.transmit_frame(&exact).unwrap(), MBUF_SIZE);
}

#[test]
fn transmit_waits_for_descriptor_owned_by_card() {
    let mut d = device();
    d.transmit_frame(&[1, 2, 3]).unwrap();
    // The card has not completed descriptor 0; wrap the tail back onto it.
    d.write_reg(E1000_TDT, 0);
    let e = d.transmit_frame(&[4, 5]).unwrap_err();
    assert_eq!(e.code, ErrorCode::TryAgain);
    assert_eq!(e.reason, "tx descriptor still owned by device");
    assert_eq!(d.tx_buffer(0, 3), vec![1, 2, 3]);
    d.card_completes_tx(0);
    assert_eq!(d.transmit_frame(&[4, 5]).unwrap(), 2);
    assert_eq!(d.tx_buffer(0, 3), vec![4, 5, 3]);
    assert_eq!(d.tx_ring()[0].length, 2);
}

#[test]
fn transmit_tail_wraps_around_ring() {
    let mut d = device();
    d.write_reg(E1000_TDT, (TX_RING_SIZE - 1) as u32);
    d.transmit_frame(&[9]).unwrap();
    assert_eq!(d.read_reg(E1000_TDT), 0);
    assert_eq!(d.tx_buffer(TX_RING_SIZE - 1, 1), vec![9]);
}

#[test]
fn receive_returns_none_until_descriptor_done() {
    let mut d = device();
    assert!(d.receive_frame().is_none());
    assert_eq!(d.read_reg(E1000_RDT), 255);
}

#[test]
fn receive_drops_partial_frame_but_reclaims() {
    let mut d = device();
    let mut desc = d.rx_ring()[0];
    desc.length = 3;
    desc.status = E1000_RXD_STAT_DD;
    desc.errors = 4;
    d.card_writes_rx(0, desc, &[1, 2, 3]);
    assert!(d.receive_frame().is_none());
    assert_eq!(d.read_reg(E1000_RDT), 0);
    let r = d.rx_ring()[0];
    assert_eq!((r.status, r.errors, r.length), (0, 0, 0));
}

#[test]
fn receive_cuts_frame_to_buffer_size() {
    let mut d = device();
    let mut desc = d.rx_ring()[0];
    desc.length = 4000;
    desc.status = E1000_RXD_STAT_DD | E1000_RXD_STAT_EOP;
    let addr = desc.addr;
    desc.addr = 0;
    d.card_writes_rx(0, desc, &vec![3u8; MBUF_SIZE]);
    assert_eq!(d.rx_ring()[0].addr, addr);
    let frame = d.receive_frame().unwrap();
    assert_eq!(frame.len(), MBUF_SIZE);
}

#[test]
fn set_hardware_addr_round_trips() {
    let mut d = device();
    let mac = [0x52, 0x54, 0x00, 0x12, 0x34, 0x56];
    d.set_hardware_addr(mac);
    assert_eq!(d.hardware_addr(), mac);
    assert_eq!(d.read_reg(E1000_RA), 0x1200_5452);
    assert_eq!(d.read_reg(E1000_RA + 1), 0x8000_5634);
    // a later init reads the same address back out of the registers
    d.init().unwrap();
    assert_eq!(d.hardware_addr(), mac);
}

#[test]
fn descriptors_start_empty() {
    let t = TxDesc::empty();
    assert_eq!((t.addr, t.length, t.cso, t.cmd, t.status, t.css, t.special), (0, 0, 0, 0, 0, 0, 0));
    let r = RxDesc::empty();
    assert_eq!((r.addr, r.length, r.csum, r.status, r.errors, r.special), (0, 0, 0, 0, 0, 0));
}

#[test]
fn dma_region_from_allocation() {
    let ok = DmaRegion::from_allocation(0x1000, 0x2000, 3, "x").unwrap();
    assert_eq!((ok.vaddr, ok.dma_addr, ok.pages), (0x1000, 0x2000, 3));
    let e = DmaRegion::from_allocation(0, 0x2000, 3, "tx buffers").unwrap_err();
    assert_eq!(e.code, ErrorCode::OutOfMemory);
    assert_eq!(e.reason, "tx buffers");
    assert!(DmaRegion::from_allocation(0x1000, 0, 3, "y").is_err());
}

#[test]
fn rx_token_hands_frame_to_consumer() {
    let t = E1000RxToken::new(vec![1, 2, 3]);
    let n = t.consume(|b| b.iter().map(|x| *x as u32).sum::<u32>());
    assert_eq!(n, 6);
}

#[test]
fn register_window_offsets() {
    assert_eq!(REG_COUNT, 0x8000);
    assert_eq!(E1000_TDT, 0xE06);
    assert_eq!(E1000_RDBAL, 0xA00);
    assert_eq!(E1000_RDBAH, 0xA01);
}

#[test]
fn transmit_with_fills_and_sends_packet() {
    let mut d = device();
    let r = d.transmit_with(4, |p| {
        assert_eq!(p, &[0, 0, 0, 0]);
        p.copy_from_slice(&[9, 8, 7, 6]);
        42
    });
    assert_eq!(r, 42);
    assert_eq!(d.read_reg(E1000_TDT), 1);
    assert_eq!(d.tx_buffer(0, 4), vec![9, 8, 7, 6]);
    assert_eq!(d.tx_ring()[0].length, 4);
    // an oversized packet is dropped, the closure's result still returned
    assert_eq!(d.transmit_with(MBUF_SIZE + 1, |_| 1), 1);
    assert_eq!(d.read_reg(E1000_TDT), 1);
}

#[test]
fn allocate_regions_requests_each_region_once_in_order() {
    let mut k = FakeKernel::new();
    let regions = E1000Device::allocate_regions(&mut k).unwrap();
    assert_eq!(k.requests, vec![1, 1, 128, 128]);
    let expected = [(0x10_0000, 1), (0x10_1000, 1), (0x10_2000, 128), (0x18_2000, 128)];
    for (r, (vaddr, pages)) in regions.iter().zip(expected.iter()) {
        assert_eq!((r.vaddr, r.dma_addr, r.pages), (*vaddr, *vaddr + 0x8000_0000, *pages));
    }
}

#[test]
fn allocate_regions_stops_at_first_failure() {
    let names = ["tx descriptor ring", "rx descriptor ring", "tx buffers", "rx buffers"];
    let pages = [1usize, 1, 128, 128];
    for n in 0..4 {
        let mut k = FakeKernel::failing_after(n);
        let e = E1000Device::allocate_regions(&mut k).unwrap_err();
        assert_eq!(e.code, ErrorCode::OutOfMemory);
        assert_eq!(e.reason, names[n]);
        assert_eq!(k.requests, pages[..n + 1].to_vec());
    }
}

#[test]
fn dma_regions_lists_rings_then_buffers() {
    let d = device();
    let r = d.dma_regions();
    assert_eq!((r[0].vaddr, r[0].pages), (0x10_0000, 1));
    assert_eq!((r[1].vaddr, r[1].pages), (0x10_1000, 1));
    assert_eq!((r[2].vaddr, r[2].pages), (0x10_2000, 128));
    assert_eq!((r[3].vaddr, r[3].pages), (0x18_2000, 128));
    assert_eq!(r[0].dma_addr, 0x8010_0000);
}

#[test]
fn release_frees_every_region_once_in_order() {
    let d = device();
    let k = d.release();
    assert_eq!(
        k.frees,
        vec![(0x10_0000, 1), (0x10_1000, 1), (0x10_2000, 128), (0x18_2000, 128)]
    );
    assert!(k.allocations.is_empty());
}

/// Answers DMA addresses above 4 GiB.
struct HighKernel {
    next: usize,
}

impl KernelFunctions for HighKernel {
    fn dma_alloc(&mut self, pages: usize) -> (usize, usize) {
        let addr = self.next;
        self.next += pages * PAGE_SIZE;
        (addr, addr + 0x5_0000_0000)
    }

    fn dma_free(&mut self, _vaddr: usize, _pages: usize) {}
}

#[test]
fn init_points_card_at_ring_regions() {
    let d = E1000Device::new(HighKernel { next: 0x20_0000 }, vec![0u32; REG_COUNT]).unwrap();
    let r = d.dma_regions();
    let tx = ((d.read_reg(E1000_TDBAH) as u64) << 32) | d.read_reg(E1000_TDBAL) as u64;
    let rx = ((d.read_reg(E1000_RDBAH) as u64) << 32) | d.read_reg(E1000_RDBAL) as u64;
    assert_eq!(tx, 0x5_0020_0000);
    assert_eq!(rx, 0x5_0020_1000);
    assert_eq!(tx, r[0].dma_addr as u64);
    assert_eq!(rx, r[1].dma_addr as u64);
    assert!(d.read_reg(E1000_TDLEN) as usize <= r[0].pages * PAGE_SIZE);
    assert!(d.read_reg(E1000_RDLEN) as usize <= r[1].pages * PAGE_SIZE);
}

#[test]
fn nanvix_kernel_functions_hand_out_consecutive_windows() {
    let freed = std::cell::RefCell::new(Vec::new());
    let k = NanvixKernelFunctions::new(
        DMA_VADDR_BASE,
        |v: usize, _pages: usize| Ok::<usize, Error>(v + 0x1000_0000),
        |v: usize, pages: usize| {
            freed.borrow_mut().push((v, pages));
            Ok::<(), Error>(())
        },
    );
    let d = E1000Device::new(k, vec![0u32; REG_COUNT]).unwrap();
    let r = d.dma_regions();
    assert_eq!((r[0].vaddr, r[0].dma_addr), (0x5000_0000, 0x6000_0000));
    assert_eq!((r[1].vaddr, r[1].dma_addr), (0x5000_1000, 0x6000_1000));
    assert_eq!((r[2].vaddr, r[2].dma_addr), (0x5000_2000, 0x6000_2000));
    assert_eq!((r[3].vaddr, r[3].dma_addr), (0x5008_2000, 0x6008_2000));
    let _ = d.release();
    assert_eq!(
        *freed.borrow(),
        vec![(0x5000_0000, 1), (0x5000_1000, 1), (0x5000_2000, 128), (0x5008_2000, 128)]
    );
}

#[test]
fn nanvix_kernel_functions_report_refusals_as_zeros() {
    let freed = std::cell::RefCell::new(Vec::new());
    let mut k = NanvixKernelFunctions::new(
        0x7000_0000,
        |_v: usize, _pages: usize| Err::<usize, Error>(Error::new(ErrorCode::OutOfMemory, "no memory")),
        |v: usize, pages: usize| {
            freed.borrow_mut().push((v, pages));
            Ok::<(), Error>(())
        },
    );
    assert_eq!(k.dma_alloc(2), (0, 0));
    assert_eq!(k.dma_alloc(usize::MAX), (0, 0));
    k.dma_free(0, 3);
    assert!(freed.borrow().is_empty());
    k.dma_free(0x7000_0000, 2);
    assert_eq!(*freed.borrow(), vec![(0x7000_0000, 2)]);
    let e = E1000Device::new(k, vec![0u32; REG_COUNT]).err().unwrap();
    assert_eq!(e.code, ErrorCode::OutOfMemory);
    assert_eq!(e.reason, "tx descriptor ring");
}

#[test]
fn oversized_packet_is_refused_before_the_tail_is_read() {
    let mut d = device();
    d.write_reg(E1000_TDT, 1000);
    let e = d.transmit_frame(&[0u8; MBUF_SIZE + 1]).unwrap_err();
    assert_eq!(e.code, ErrorCode::InvalidArgument);
    assert_eq!(d.read_reg(E1000_TDT), 1000);
}

#[test]
fn call_log_forwards_every_request() {
    let d = E1000Device::new(CallLog::new(FakeKernel::new()), vec![0u32; REG_COUNT]).unwrap();
    let k = d.release().into_inner();
    assert_eq!(k.requests, vec![1, 1, 128, 128]);
    assert_eq!(
        k.frees,
        vec![(0x10_0000, 1), (0x10_1000, 1), (0x10_2000, 128), (0x18_2000, 128)]
    );
    assert!(k.allocations.is_empty());
}
