//! A verified model of the Nanvix e1000 network drivers.
//!
//! The library keeps the register window and the DMA memory of the network
//! card as plain values, so that the ring protocol, the descriptor layouts and
//! the register programming can be stated and proved.

pub mod e1000;
pub mod e1000_for_nanvix;
pub mod error;
pub mod kcall;
pub mod memory;
pub mod netd;
pub mod pci;
pub mod time;
