//! The kernel functions of Nanvix: DMA memory from the kernel's memory
//! manager, mapped at virtual addresses handed out one after the other.

use vstd::prelude::*;
use crate::e1000::{DmaCall, KernelFunctions, PAGE_SIZE};
use crate::error::Error;

verus! {

/// Where the virtual addresses of DMA memory start.
pub const DMA_VADDR_BASE: usize = 0x5000_0000;

/// The next free virtual address after `pages` pages were reserved at `vaddr`:
/// the address moves past them, wrapping around like a `usize`.
pub open spec fn vaddr_after(vaddr: usize, pages: usize) -> usize {
    vstd::wrapping::usize_specs::wrapping_add(vaddr, (pages * PAGE_SIZE) as usize)
}

/// The answer to an allocation at virtual address `vaddr`, given what the
/// memory manager returned: the address and the physical address it gave, or
/// two zeros when it refused.
pub open spec fn answer_of(vaddr: usize, r: Result<usize, Error>) -> (usize, usize) {
    match r {
        Ok(paddr) => (vaddr, paddr),
        Err(_) => (0, 0),
    }
}

/// The kernel functions of Nanvix. `alloc(vaddr, pages)` asks the memory
/// manager to back `pages` pages at `vaddr` with DMA memory and answers their
/// physical address; `free(vaddr, pages)` gives such pages back. Each request
/// reserves the next pages of virtual addresses, from `next_vaddr` on.
pub struct NanvixKernelFunctions<A, F> where
    A: Fn(usize, usize) -> Result<usize, Error>,
    F: Fn(usize, usize) -> Result<(), Error>,
 {
    next_vaddr: usize,
    alloc: A,
    free: F,
    log: Ghost<Seq<DmaCall>>,
}

impl<A, F> NanvixKernelFunctions<A, F> where
    A: Fn(usize, usize) -> Result<usize, Error>,
    F: Fn(usize, usize) -> Result<(), Error>,
 {
    /// Both kernel calls accept every argument.
    #[verifier::type_invariant]
    spec fn calls_accepted(self) -> bool {
        &&& forall|v: usize, p: usize| #[trigger] call_requires(self.alloc, (v, p))
        &&& forall|v: usize, p: usize| #[trigger] call_requires(self.free, (v, p))
    }

    /// The virtual address that the next request reserves.
    pub closed spec fn next_vaddr(&self) -> usize {
        self.next_vaddr
    }

    /// The memory manager's allocation call.
    pub closed spec fn allocator(&self) -> A {
        self.alloc
    }

    /// The memory manager's release call.
    pub closed spec fn releaser(&self) -> F {
        self.free
    }

    /// Kernel functions that reserve virtual addresses from `next_vaddr` on,
    /// with no request made yet.
    pub fn new(next_vaddr: usize, alloc: A, free: F) -> (k: Self)
        requires
            forall|v: usize, p: usize| #[trigger] call_requires(alloc, (v, p)),
            forall|v: usize, p: usize| #[trigger] call_requires(free, (v, p)),
        ensures
            k.next_vaddr() == next_vaddr,
            k.allocator() == alloc,
            k.releaser() == free,
            k.calls() == Seq::<DmaCall>::empty(),
    {
        NanvixKernelFunctions { next_vaddr, alloc, free, log: Ghost(Seq::empty()) }
    }
}

impl<A, F> KernelFunctions for NanvixKernelFunctions<A, F> where
    A: Fn(usize, usize) -> Result<usize, Error>,
    F: Fn(usize, usize) -> Result<(), Error>,
 {
    open spec fn keeps_call_log() -> bool {
        true
    }

    closed spec fn calls(&self) -> Seq<DmaCall> {
        self.log@
    }

    /// Reserves the next `pages` pages of virtual addresses and has the memory
    /// manager back them; answers the reserved address and the physical
    /// address, or two zeros when the manager refuses. A request whose size in
    /// bytes does not fit in a `usize` reserves nothing and is refused.
    fn dma_alloc(&mut self, pages: usize) -> (answer: (usize, usize))
        ensures
            final(self).allocator() == old(self).allocator(),
            final(self).releaser() == old(self).releaser(),
            if pages * PAGE_SIZE > usize::MAX {
                answer == (0usize, 0usize) && final(self).next_vaddr() == old(self).next_vaddr()
            } else {
                &&& final(self).next_vaddr() == vaddr_after(old(self).next_vaddr(), pages)
                &&& exists|r: Result<usize, Error>|
                    #[trigger] call_ensures(old(self).allocator(), (old(self).next_vaddr(), pages), r)
                        && answer == answer_of(old(self).next_vaddr(), r)
            },
    {
        proof {
            use_type_invariant(&*self);
        }
        let span = match pages.checked_mul(PAGE_SIZE) {
            Some(span) => span,
            None => {
                self.log = Ghost(self.log@.push(DmaCall::Alloc { pages, answer: (0, 0) }));
                return (0, 0);
            },
        };
        let vaddr = self.next_vaddr;
        self.next_vaddr = vaddr.wrapping_add(span);
        let granted = (self.alloc)(vaddr, pages);
        let answer = match granted {
            Ok(paddr) => (vaddr, paddr),
            Err(_) => (0, 0),
        };
        assert(call_ensures(old(self).allocator(), (old(self).next_vaddr(), pages), granted));
        self.log = Ghost(self.log@.push(DmaCall::Alloc { pages, answer }));
        answer
    }

    /// Gives `pages` pages at `vaddr` back to the memory manager; a zero
    /// address, which no allocation answers, is left alone.
    fn dma_free(&mut self, vaddr: usize, pages: usize)
        ensures
            final(self).allocator() == old(self).allocator(),
            final(self).releaser() == old(self).releaser(),
            final(self).next_vaddr() == old(self).next_vaddr(),
            vaddr != 0 ==> exists|r: Result<(), Error>|
                #[trigger] call_ensures(old(self).releaser(), (vaddr, pages), r),
    {
        proof {
            use_type_invariant(&*self);
        }
        if vaddr != 0 {
            let released = (self.free)(vaddr, pages);
            assert(call_ensures(old(self).releaser(), (vaddr, pages), released));
        }
        self.log = Ghost(self.log@.push(DmaCall::Free { vaddr, pages }));
    }
}

} // verus!
