use nanvix_net::error::{Error, ErrorCode};
use nanvix_net::kcall::{free_dma, KcallResult};
use nanvix_net::pci::{config_address, PciScan, PciScanStep, E1000_DEVICE_ID};
use nanvix_net::time::{instant_from_time, millis_from_time};

#[test]
fn config_address_selects_register() {
    assert_eq!(config_address(0, 3, 0, 0x10), 0x8000_1810);
    assert_eq!(config_address(1, 2, 3, 0x13), 0x8001_1310);
    assert_eq!(config_address(0, 0, 0, 0), 0x8000_0000);
}

#[test]
fn pci_scan_stops_at_e1000() {
    let ecam = 0x3000_0000usize;
    let mut scan = PciScan::new();
    assert_eq!(scan.next_probe(ecam), Some(ecam));
    match scan.observe(ecam, 0xffff_ffff) {
        PciScanStep::Probe(addr) => assert_eq!(addr, ecam + 2048),
        _ => panic!("scan must go on"),
    }
    match scan.observe(ecam, E1000_DEVICE_ID) {
        PciScanStep::Configure(base) => assert_eq!(base, ecam + 2048),
        _ => panic!("e1000 must be configured"),
    }
    assert_eq!(scan.next_probe(ecam), None);
}

#[test]
fn pci_scan_gives_up_after_last_device() {
    let ecam = 0x1000usize;
    let mut scan = PciScan::new();
    let mut steps = 0;
    while let Some(_) = scan.next_probe(ecam) {
        let step = scan.observe(ecam, 0);
        steps += 1;
        if steps == 33 {
            assert!(matches!(step, PciScanStep::Done));
        }
    }
    assert_eq!(steps, 33);
}

#[test]
fn clock_reading_to_instant() {
    assert_eq!(millis_from_time(2, 500_000_000), 2500);
    assert_eq!(millis_from_time(0, 999_999), 0);
    assert_eq!(instant_from_time(2, 500_999_999).total_millis(), 2500);
    assert_eq!(instant_from_time(0, 0).total_millis(), 0);
    // A millisecond count above i64::MAX wraps to a negative one.
    assert_eq!(millis_from_time(18_446_744_073_709_551, 615_000_000), u64::MAX);
    assert_eq!(instant_from_time(18_446_744_073_709_551, 615_000_000).total_micros(), -1000);
}

#[test]
fn free_dma_checks_in_order() {
    let ok = free_dma(7u32, 0x1000, 3, |v| Ok(v), |_| Ok(true), |pid, v, n| {
        assert_eq!((pid, v, n), (7, 0x1000, 3));
        Ok(())
    });
    assert_eq!(ok, KcallResult::Success);
    let bad = free_dma(
        7u32,
        0x1001,
        3,
        |_| Err(Error::new(ErrorCode::InvalidArgument, "unaligned")),
        |_| -> Result<bool, Error> { panic!("no capability check after a bad address") },
        |_, _, _| -> Result<(), Error> { panic!("no free after a bad address") },
    );
    assert_eq!(bad, KcallResult::Error(ErrorCode::InvalidArgument));
    let denied = free_dma(7u32, 0x1000, 3, |v| Ok(v), |_| Ok(false), |_, _, _| -> Result<(), Error> {
        panic!("no free without capability")
    });
    assert_eq!(denied, KcallResult::Error(ErrorCode::PermissionDenied));
    let failed = free_dma(7u32, 0x1000, 3, |v| Ok(v), |_| Ok(true), |_, _, _| {
        Err(Error::new(ErrorCode::OutOfMemory, "x"))
    });
    assert_eq!(failed, KcallResult::Error(ErrorCode::OutOfMemory));
}
