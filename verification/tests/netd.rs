use nanvix_net::error::ErrorCode;
use nanvix_net::netd::descriptor::{DescType, Descriptor};
use nanvix_net::netd::device::{
    eeprom_present, eeprom_probe_step, eeprom_read_command, eeprom_read_result, hex_dump_words,
    link_speed, link_start, EepromProbe, EEPROM_PROBE_READS,
    mac_from_eeprom, reset_complete, reset_request, E1000Device, CTL_RST, DMA_BASE_ADDRESS,
    REG_IMC, REG_IMS, REG_MTA, REG_RAH, REG_RAL, REG_RCTL, REG_RDBAL, REG_RDLEN, REG_RDT, REG_TCTL,
    REG_TDBAL, REG_TDLEN, REG_TDT, REG_TIPG,
};
use nanvix_net::netd::dma_info::DmaInfo;
use nanvix_net::netd::dma_manager::DmaManager;
use nanvix_net::netd::mmio::MMIO;
use nanvix_net::netd::rx::{RxDesc, RxRing};
use nanvix_net::netd::tx::{TxDesc, TxRing};
use nanvix_net::netd::volatile_cell::VolatileCell;

const PADDR: usize = 0x9000_0000;

fn allocated_manager() -> DmaManager {
    let mut m = DmaManager::new(DmaInfo::new(8, 4096), DMA_BASE_ADDRESS);
    m.allocate(|_, _| Ok(PADDR)).unwrap();
    m
}

fn device() -> E1000Device {
    E1000Device::init(MMIO::new(0xfebc_0000), [0x5452, 0x1200, 0x5634], |_, _| Ok(PADDR)).unwrap()
}

#[test]
fn volatile_cell_reads_what_was_written() {
    let mut c = VolatileCell::new(3u64);
    assert_eq!(c.read(), 3);
    c.write(0xdead_beef);
    assert_eq!(c.read(), 0xdead_beef);
}

#[test]
fn dma_info_layout() {
    let info = DmaInfo::new(8, 4096);
    assert_eq!(info.desc_count(), 8);
    assert_eq!(info.buff_len(), 4096);
    assert_eq!(info.ring_len(), 128);
    assert_eq!(info.dma_len(), 65792);
    assert_eq!(info.tx_ring_offset(), 0);
    assert_eq!(info.rx_ring_offset(), 128);
    assert_eq!(info.tx_buff_offset(), 256);
    assert_eq!(info.rx_buff_offset(), 256 + 8 * 4096);
    assert_eq!(info.rx_buff_offset() + 8 * 4096, info.dma_len());
    let big = DmaInfo::new(255, 65535);
    assert_eq!(big.dma_len(), 2 * 255 * (16 + 65535));
    assert_eq!(DescType::Tx.ring_offset(&info), 0);
    assert_eq!(DescType::Rx.ring_offset(&info), 128);
    assert_eq!(DescType::Tx.buff_offset(&info), 256);
    assert_eq!(DescType::Rx.buff_offset(&info), 33024);
}

#[test]
fn tx_fields_are_independent() {
    let mut d = Descriptor::zeroed();
    d.set_tx_special(0xabcd);
    d.set_tx_css(0x11);
    d.set_tx_rsv_sta(0x22);
    d.set_tx_cmd(0x33);
    d.set_tx_cso(0x44);
    d.set_tx_length(0x5566);
    assert_eq!(d.read_fields(), 0xabcd_1122_3344_5566);
    d.set_tx_cmd(0x09);
    assert_eq!(d.read_fields(), 0xabcd_1122_0944_5566);
    assert_eq!(d.get_tx_special(), 0xabcd);
    assert_eq!(d.get_tx_css(), 0x11);
    assert_eq!(d.get_tx_rsv_sta(), 0x22);
    assert_eq!(d.get_tx_cmd(), 0x09);
    assert_eq!(d.get_tx_cso(), 0x44);
    assert_eq!(d.get_tx_length(), 0x5566);
    d.set_buff_address(0x1234_5678_9abc);
    assert_eq!(d.get_buff_address(), 0x1234_5678_9abc);
    assert_eq!(d.read_fields(), 0xabcd_1122_0944_5566);
}

#[test]
fn rx_fields_are_independent() {
    let mut d = Descriptor::zeroed();
    d.set_rx_special(0x0102);
    d.set_rx_errors(0x03);
    d.set_rx_status(0x04);
    d.set_rx_chksum(0x0506);
    d.set_rx_length(0x0708);
    assert_eq!(d.read_fields(), 0x0102_0304_0506_0708);
    d.set_rx_chksum(0xffff);
    assert_eq!(d.get_rx_special(), 0x0102);
    assert_eq!(d.get_rx_errors(), 0x03);
    assert_eq!(d.get_rx_status(), 0x04);
    assert_eq!(d.get_rx_chksum(), 0xffff);
    assert_eq!(d.get_rx_length(), 0x0708);
    // the receive status is the byte the transmit layout calls rsv/sta
    assert_eq!(d.get_tx_rsv_sta(), 0x04);
}

#[test]
fn packed_descriptors_read_back() {
    let r = RxDesc::new(0x1000, 0x1111, 0x22, 0x33, 0x4444, 0x5555);
    assert_eq!(r.buff_address(), 0x1000);
    assert_eq!(r.other(), 0x1111_2233_4444_5555);
    let t = TxDesc::new(0x2000, 0x1111, 0x22, 0xf3, 0x1c, 0x09, 0x44, 0x5555);
    assert_eq!(t.buff_address(), 0x2000);
    assert_eq!(t.other(), 0x1111_223c_0944_5555);
    let mut d = Descriptor::zeroed();
    d.set_fields(t.other());
    assert_eq!(d.get_tx_rsv_sta(), 0x3c);
    assert_eq!(d.get_tx_cmd(), 0x09);
    // an extended-descriptor command bit is cleared: the descriptor stays legacy
    let x = TxDesc::new(0, 0, 0, 0, 0, 0x29, 0, 0);
    assert_eq!(x.other(), 0x0000_0000_0900_0000);
    let _ = TxRing::new(0x3000, 128, 0, 0);
    let _ = TxRing::empty();
    let _ = RxRing { base_address: 0, len: 0, head: 0, tail: 0 };
}

#[test]
fn dma_manager_allocates_once() {
    let mut m = DmaManager::new(DmaInfo::new(8, 4096), DMA_BASE_ADDRESS);
    let e = m.base_paddr().unwrap_err();
    assert_eq!(e.code, ErrorCode::OperationNotPermitted);
    assert_eq!(e.reason, "dma region not allocated");
    assert_eq!(m.tx_start_paddr().unwrap_err().code, ErrorCode::OperationNotPermitted);
    assert!(m.rx_start_paddr().is_err());
    let failed = m.allocate(|_, _| Err(nanvix_net::error::Error::new(ErrorCode::OutOfMemory, "no")));
    assert_eq!(failed.unwrap_err().code, ErrorCode::OutOfMemory);
    assert!(m.base_paddr().is_err());
    m.allocate(|vaddr, len| {
        assert_eq!(vaddr, DMA_BASE_ADDRESS);
        assert_eq!(len, 65792);
        Ok(PADDR)
    })
    .unwrap();
    assert_eq!(m.base_paddr().unwrap(), PADDR);
    assert_eq!(m.tx_start_paddr().unwrap(), PADDR);
    assert_eq!(m.rx_start_paddr().unwrap(), PADDR + 128);
    m.allocate(|_, _| -> Result<usize, nanvix_net::error::Error> { panic!("already allocated") }).unwrap();
    assert_eq!(m.base_vaddr(), DMA_BASE_ADDRESS);
    assert_eq!(m.info().dma_len(), 65792);
}

#[test]
fn rings_point_at_their_buffers() {
    let unbacked = DmaManager::new(DmaInfo::new(8, 4096), DMA_BASE_ADDRESS);
    assert_eq!(Descriptor::tx_from(&unbacked).unwrap_err().code, ErrorCode::OperationNotPermitted);
    let empty = DmaManager::new(DmaInfo::new(0, 4096), DMA_BASE_ADDRESS);
    let (descs, addrs, bufs) = Descriptor::rx_from(&empty).unwrap();
    assert!(descs.is_empty() && addrs.is_empty() && bufs.is_empty());

    let m = allocated_manager();
    let (tx, tx_addrs, tx_bufs) = Descriptor::tx_from(&m).unwrap();
    let (rx, rx_addrs, rx_bufs) = Descriptor::rx_from(&m).unwrap();
    assert_eq!(tx.len(), 8);
    assert_eq!(rx.len(), 8);
    assert_eq!(tx_addrs.len(), 8);
    assert_eq!(rx_addrs.len(), 8);
    for i in 0..8 {
        assert_eq!(tx_addrs[i], DMA_BASE_ADDRESS + 16 * i);
        assert_eq!(rx_addrs[i], DMA_BASE_ADDRESS + 128 + 16 * i);
        assert_eq!(tx[i].get_buff_address(), (PADDR + 256 + i * 4096) as u64);
        assert_eq!(tx[i].get_tx_rsv_sta(), 1);
        assert_eq!(tx[i].read_fields(), 1 << 32);
        assert_eq!(tx_bufs[i], DMA_BASE_ADDRESS + 256 + i * 4096);
        assert_eq!(rx[i].get_buff_address(), (PADDR + 33024 + i * 4096) as u64);
        assert_eq!(rx[i].read_fields(), 0);
        assert_eq!(rx_bufs[i], DMA_BASE_ADDRESS + 33024 + i * 4096);
    }
}

#[test]
fn mmio_reads_what_was_written() {
    let mut m = MMIO::new(0x1000);
    assert_eq!(m.read(0x3818), 0);
    m.write(0x3818, 5);
    assert_eq!(m.read(0x3818), 5);
    assert_eq!(m.read(0x3810), 0);
}

#[test]
fn bring_up_decisions() {
    assert_eq!(reset_request(0x1), 0x1 | CTL_RST);
    assert!(!reset_complete(CTL_RST | 1));
    assert!(reset_complete(1));
    assert!(eeprom_present(0x10));
    assert!(!eeprom_present(0x01));
    assert_eq!(eeprom_read_command(2), 0x201);
    assert_eq!(eeprom_read_result(0x1234_0010), Some(0x1234));
    assert_eq!(eeprom_read_result(0x1234_0001), None);
    assert_eq!(link_start(0x1), 0x61);
    assert_eq!(link_speed(0x0), None);
    assert_eq!(link_speed(0b10), Some(10));
    assert_eq!(link_speed(0b10 | (1 << 6)), Some(100));
    assert_eq!(link_speed(0b10 | (2 << 6)), Some(1000));
    assert_eq!(link_speed(0b10 | (3 << 6)), Some(-1));
    assert_eq!(mac_from_eeprom([0x5452, 0x1200, 0x5634]), [0x52, 0x54, 0x00, 0x12, 0x34, 0x56]);
}

#[test]
fn netd_init_programs_registers() {
    let d = device();
    let m = d.mmio();
    assert_eq!(m.read(REG_TDBAL), PADDR as u32);
    assert_eq!(m.read(REG_TDLEN), 128);
    assert_eq!(m.read(REG_TDT), 0);
    assert_eq!(m.read(REG_RDBAL), (PADDR + 128) as u32);
    assert_eq!(m.read(REG_RDLEN), 128);
    assert_eq!(m.read(REG_RDT), 7);
    assert_eq!(m.read(REG_RAL), 0x1200_5452);
    assert_eq!(m.read(REG_RAH), 0x8000_5634);
    assert_eq!(m.read(REG_MTA + 4 * 127), 0);
    assert_eq!(m.read(REG_TCTL), 0x0004_010A);
    assert_eq!(m.read(REG_TIPG), 0x0060_200A);
    assert_eq!(m.read(REG_RCTL), 0x0603_8002);
    assert_eq!(m.read(REG_IMS), 0x80);
    assert_eq!(m.read(REG_IMC), u32::MAX);
    assert_eq!(d.mac_address(), [0x52, 0x54, 0x00, 0x12, 0x34, 0x56]);
    assert_eq!(d.tx_bufs()[1], DMA_BASE_ADDRESS + 256 + 4096);
    assert_eq!(d.rx_bufs()[0], DMA_BASE_ADDRESS + 33024);
    assert_eq!(d.tx_ring().len(), 8);
    assert_eq!(d.rx_ring().len(), 8);
}

#[test]
fn netd_base_registers_point_at_first_descriptors() {
    let d = device();
    let m = allocated_manager();
    let (_, tx_addrs, _) = Descriptor::tx_from(&m).unwrap();
    let (_, rx_addrs, _) = Descriptor::rx_from(&m).unwrap();
    let tx_offset = tx_addrs[0] - DMA_BASE_ADDRESS;
    let rx_offset = rx_addrs[0] - DMA_BASE_ADDRESS;
    assert_eq!(d.mmio().read(REG_TDBAL), (PADDR + tx_offset) as u32);
    assert_eq!(d.mmio().read(REG_RDBAL), (PADDR + rx_offset) as u32);
    assert_eq!(d.mmio().read(REG_TDLEN) as usize, tx_addrs[7] + 16 - tx_addrs[0]);
    assert_eq!(d.mmio().read(REG_RDLEN) as usize, rx_addrs[7] + 16 - rx_addrs[0]);
}

#[test]
fn init_reports_dma_failure() {
    let r = E1000Device::init(MMIO::new(0), [0, 0, 0], |_, _| {
        Err(nanvix_net::error::Error::new(ErrorCode::OutOfMemory, "no dma"))
    });
    match r {
        Err(e) => assert_eq!(e.reason, "no dma"),
        Ok(_) => panic!("dma failure must be reported"),
    }
}

#[test]
fn transmit_fills_tail_descriptor() {
    let mut d = device();
    assert_eq!(d.transmit_frame(&[1, 2, 3]).unwrap(), 3);
    assert_eq!(d.mmio().read(REG_TDT), 1);
    let desc = &d.tx_ring()[0];
    assert_eq!(desc.get_tx_length(), 3);
    assert_eq!(desc.get_tx_cmd(), 0b1001);
    assert_eq!(desc.get_tx_rsv_sta(), 0);
    assert_eq!(desc.get_buff_address(), (PADDR + 256) as u64);
    assert_eq!(d.tx_buffer(0, 3), vec![1, 2, 3]);

    let e = d.transmit_frame(&vec![0u8; 4097]).unwrap_err();
    assert_eq!(e.code, ErrorCode::InvalidArgument);
    assert_eq!(e.reason, "packet exceeds e1000 buffer size");
}

#[test]
fn transmit_waits_for_card_and_wraps() {
    let mut d = device();
    for i in 0..8u8 {
        d.transmit_frame(&[i]).unwrap();
    }
    assert_eq!(d.mmio().read(REG_TDT), 0);
    let e = d.transmit_frame(&[9]).unwrap_err();
    assert_eq!(e.code, ErrorCode::TryAgain);
    assert_eq!(e.reason, "tx descriptor still owned by device");
    d.card_completes_tx(0);
    assert_eq!(d.transmit_frame(&[9, 9]).unwrap(), 2);
    assert_eq!(d.tx_buffer(7, 1), vec![7]);
}

#[test]
fn receive_takes_frame_after_tail() {
    let mut d = device();
    assert!(d.receive_frame().is_none());
    // the card fills descriptor 0 (the one after the tail, 7): done and end of packet
    let fields = (0b11u64 << 32) | 5;
    d.card_writes_rx(0, fields, &[5, 4, 3, 2, 1]);
    assert_eq!(d.receive_frame().unwrap(), vec![5, 4, 3, 2, 1]);
    assert_eq!(d.mmio().read(REG_RDT), 0);
    assert_eq!(d.rx_ring()[0].read_fields(), 0);
    assert_eq!(d.rx_ring()[0].get_buff_address(), (PADDR + 33024) as u64);
    // done but not end of packet: dropped, yet handed back
    d.card_writes_rx(1, (0b01u64 << 32) | 2, &[1, 1]);
    assert!(d.receive_frame().is_none());
    assert_eq!(d.mmio().read(REG_RDT), 1);
    assert_eq!(d.rx_ring()[1].read_fields(), 0);
}

#[test]
fn hex_dump_shows_whole_words() {
    assert_eq!(hex_dump_words(&[1, 2, 3, 4, 5, 6, 7, 8, 9], 9), vec![0x0403_0201, 0x0807_0605]);
    assert_eq!(hex_dump_words(&[1, 2, 3], 3), Vec::<u32>::new());
    assert_eq!(hex_dump_words(&[1, 2, 3, 4, 5], 4), vec![0x0403_0201]);
}

#[test]
fn netd_transmit_with_fills_and_sends_packet() {
    let mut d = device();
    let r = d.transmit_with(2, |p| {
        p[0] = 0xaa;
        p[1] = 0xbb;
        "done"
    });
    assert_eq!(r, "done");
    assert_eq!(d.mmio().read(REG_TDT), 1);
    assert_eq!(d.tx_buffer(0, 2), vec![0xaa, 0xbb]);
    assert_eq!(d.tx_ring()[0].get_tx_length(), 2);
}

#[test]
fn eeprom_probe_gives_up_after_a_thousand_reads() {
    assert_eq!(EEPROM_PROBE_READS, 1000);
    assert_eq!(eeprom_probe_step(0, 0x10), EepromProbe::Present);
    assert_eq!(eeprom_probe_step(0, 0x01), EepromProbe::ReadAgain(1));
    assert_eq!(eeprom_probe_step(998, 0), EepromProbe::ReadAgain(999));
    assert_eq!(eeprom_probe_step(999, 0), EepromProbe::Absent);
    assert_eq!(eeprom_probe_step(999, 0x10), EepromProbe::Present);
    let mut reads = 0u32;
    let mut count = 0;
    loop {
        count += 1;
        match eeprom_probe_step(reads, 0) {
            EepromProbe::ReadAgain(n) => reads = n,
            other => {
                assert_eq!(other, EepromProbe::Absent);
                break;
            }
        }
    }
    assert_eq!(count, 1000);
}

#[test]
fn unbacked_ring_near_top_of_address_space_is_refused() {
    let high = DmaManager::new(DmaInfo::new(8, 4096), usize::MAX - 64);
    assert_eq!(Descriptor::tx_from(&high).unwrap_err().code, ErrorCode::OperationNotPermitted);
}
