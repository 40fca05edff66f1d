//! The network daemon's driver: descriptors packed in two 64-bit words, a DMA
//! area laid out by `DmaInfo`, and the device that drives both rings.

pub mod descriptor;
pub mod device;
pub mod dma_info;
pub mod dma_manager;
pub mod mmio;
pub mod rx;
pub mod tx;
pub mod volatile_cell;
