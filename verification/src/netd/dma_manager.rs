//! The daemon's DMA area: its layout, its virtual base and, once the kernel
//! has backed it, its physical base.

use vstd::prelude::*;
use crate::error::{Error, ErrorCode};
use crate::netd::dma_info::{DmaInfo, DmaLayout};

verus! {

/// A DMA area that is laid out by a `DmaInfo` and mapped at a virtual base.
pub struct DmaManager {
    info: DmaInfo,
    base_vaddr: usize,
    base_paddr: Result<usize, Error>,
}

/// The error that stands for an area the kernel has not backed yet.
pub open spec fn not_allocated_error(e: Error) -> bool {
    e.code == ErrorCode::OperationNotPermitted && e.reason == "dma region not allocated"
}

impl DmaManager {
    /// The layout of the area.
    pub closed spec fn layout(&self) -> DmaLayout {
        self.info@
    }

    /// The virtual base of the area.
    pub closed spec fn vaddr(&self) -> usize {
        self.base_vaddr
    }

    /// The physical base of the area, or why there is none.
    pub closed spec fn paddr(&self) -> Result<usize, Error> {
        self.base_paddr
    }

    /// Whether the kernel has backed the area.
    pub open spec fn allocated(&self) -> bool {
        self.paddr() is Ok
    }

    /// An area that the kernel has not backed yet.
    pub fn new(info: DmaInfo, vaddr: usize) -> (m: Self)
        ensures
            m.layout() == info@,
            m.vaddr() == vaddr,
            m.paddr() is Err,
            not_allocated_error(m.paddr()->Err_0),
    {
        Self {
            info: info,
            base_vaddr: vaddr,
            base_paddr: Err(Error::new(ErrorCode::OperationNotPermitted, "dma region not allocated")),
        }
    }

    /// Asks the kernel, through `dma_alloc`, to back the area, unless it already
    /// is. `dma_alloc` is handed the virtual base and the area's length in bytes
    /// and returns the physical base. On a failure the area stays unbacked and
    /// the kernel's error is returned.
    pub fn allocate<F: FnOnce(usize, usize) -> Result<usize, Error>>(&mut self, dma_alloc: F) -> (r:
        Result<(), Error>)
        requires
            !old(self).allocated() ==> call_requires(
                dma_alloc,
                (old(self).vaddr(), old(self).layout().dma_len() as usize),
            ),
        ensures
            final(self).layout() == old(self).layout(),
            final(self).vaddr() == old(self).vaddr(),
            old(self).allocated() ==> r is Ok && final(self).paddr() == old(self).paddr(),
            !old(self).allocated() ==> match r {
                Ok(_) => final(self).allocated() && call_ensures(
                    dma_alloc,
                    (old(self).vaddr(), old(self).layout().dma_len() as usize),
                    final(self).paddr(),
                ),
                Err(e) => final(self).paddr() == old(self).paddr() && call_ensures(
                    dma_alloc,
                    (old(self).vaddr(), old(self).layout().dma_len() as usize),
                    Err::<usize, Error>(e),
                ),
            },
    {
        if self.base_paddr.is_err() {
            let paddr = dma_alloc(self.base_vaddr, self.info().dma_len())?;
            self.base_paddr = Ok(paddr);
        }
        Ok(())
    }

    pub fn info(&self) -> (i: &DmaInfo)
        ensures
            i@ == self.layout(),
    {
        &self.info
    }

    pub fn base_vaddr(&self) -> (v: usize)
        ensures
            v == self.vaddr(),
    {
        self.base_vaddr
    }

    pub fn base_paddr(&self) -> (p: Result<usize, Error>)
        ensures
            p == self.paddr(),
    {
        match &self.base_paddr {
            Ok(paddr) => Ok(*paddr),
            Err(err) => Err(Error::new(err.code, err.reason)),
        }
    }

    pub fn tx_start_paddr(&self) -> (p: Result<usize, Error>)
        ensures
            p == self.paddr(),
    {
        self.base_paddr()
    }

    pub fn rx_start_paddr(&self) -> (p: Result<usize, Error>)
        requires
            self.paddr() is Ok ==> self.paddr()->Ok_0 + self.layout().rx_ring_offset()
                <= usize::MAX,
        ensures
            match self.paddr() {
                Ok(base) => p == Ok::<usize, Error>((base + self.layout().rx_ring_offset()) as usize),
                Err(e) => p == Err::<usize, Error>(e),
            },
    {
        Ok(self.base_paddr()? + self.info().rx_ring_offset())
    }
}

} // verus!
