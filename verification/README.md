# nanvix_net

A verified model of the e1000 network drivers of Nanvix.

The drivers program a network card through a window of 32-bit registers and
share descriptor rings and packet buffers with it in DMA memory. This library
holds the register window and the DMA memory as plain values (the words of the
window, the descriptors of each ring, the bytes of each buffer area), so that
every operation has a contract that says exactly what it leaves in them.

- `e1000`: the network library's driver (rings of 256 descriptors, 2048-byte
  buffers), with the kernel's DMA allocator behind the `KernelFunctions` trait;
  `CallLog` wraps any implementation of it so that the requests the driver
  makes are logged and its contracts can speak of them.
- `e1000_for_nanvix`: the kernel functions of Nanvix, which reserve virtual
  addresses for DMA memory one window after the other and have the kernel's
  memory manager back them; they keep the log of requests that the driver's
  contracts speak of.
- `netd`: the network daemon's driver: descriptors packed into two 64-bit
  words, a DMA area laid out by `DmaInfo`, a register window `MMIO`, and the
  decisions of the card's bring-up handshake.
- `pci`: PCI configuration addresses and the ECAM scan that finds the card.
- `kcall`: the kernel call that frees DMA memory.
- `time`: clock readings as smoltcp instants.

`app/` holds what talks to real hardware or to smoltcp: the smoltcp `Device`
implementations, the ECAM scan over volatile memory, and the bring-up
handshake that polls the card's registers.
