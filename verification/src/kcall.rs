//! The kernel call that frees DMA memory on behalf of a process.

use vstd::prelude::*;
use crate::error::{Error, ErrorCode};

verus! {

/// What a kernel call answers.
#[derive(Debug, Clone, Copy, PartialEq, Eq, Structural)]
pub enum KcallResult {
    Success,
    Error(ErrorCode),
}

/// The answer to a `free_dma` call, given what each step returned: the check
/// that the first argument is a page-aligned address, then (only if it is)
/// the check of the caller's I/O management capability, then (only if the
/// caller holds it) the release of the memory.
pub open spec fn free_dma_answer(
    aligned: Result<usize, Error>,
    capable: Result<bool, Error>,
    freed: Result<(), Error>,
) -> KcallResult {
    match aligned {
        Err(e) => KcallResult::Error(e.code),
        Ok(_) => match capable {
            Err(e) => KcallResult::Error(e.code),
            Ok(false) => KcallResult::Error(ErrorCode::PermissionDenied),
            Ok(true) => match freed {
                Ok(_) => KcallResult::Success,
                Err(e) => KcallResult::Error(e.code),
            },
        },
    }
}

/// Whether `a`, `c` and `f` are what the three steps of a `free_dma` call
/// returned, and `r` the answer: each step ran on the arguments that the call
/// hands it, and only after the previous step succeeded.
pub open spec fn free_dma_ran<P, A, C, F>(
    caller_pid: P,
    arg0: u32,
    arg1: u32,
    page_aligned: A,
    has_io_capability: C,
    do_free_dma: F,
    a: Result<usize, Error>,
    c: Result<bool, Error>,
    f: Result<(), Error>,
    r: KcallResult,
) -> bool where
    A: FnOnce(usize) -> Result<usize, Error>,
    C: FnOnce(P) -> Result<bool, Error>,
    F: FnOnce(P, usize, usize) -> Result<(), Error>,
 {
    &&& call_ensures(page_aligned, (arg0 as usize,), a)
    &&& (a is Ok ==> call_ensures(has_io_capability, (caller_pid,), c))
    &&& (a is Ok && c == Ok::<bool, Error>(true) ==> call_ensures(
        do_free_dma,
        (caller_pid, a->Ok_0, arg1 as usize),
        f,
    ))
    &&& r == free_dma_answer(a, c, f)
}

/// Frees `arg1` frames of DMA memory at virtual address `arg0` for process
/// `caller_pid`. `page_aligned` checks the address, `has_io_capability` tells
/// whether the caller may manage I/O, and `do_free_dma` releases the memory
/// (handed the caller, the checked address and the frame count). A step runs
/// only when the previous one succeeded; the first failure is the answer.
pub fn free_dma<P: Copy, A, C, F>(
    caller_pid: P,
    arg0: u32,
    arg1: u32,
    page_aligned: A,
    has_io_capability: C,
    do_free_dma: F,
) -> (r: KcallResult) where
    A: FnOnce(usize) -> Result<usize, Error>,
    C: FnOnce(P) -> Result<bool, Error>,
    F: FnOnce(P, usize, usize) -> Result<(), Error>,

    requires
        call_requires(page_aligned, (arg0 as usize,)),
        call_requires(has_io_capability, (caller_pid,)),
        forall|v: usize| #[trigger] call_requires(do_free_dma, (caller_pid, v, arg1 as usize)),
    ensures
        exists|a: Result<usize, Error>, c: Result<bool, Error>, f: Result<(), Error>|
            #[trigger] free_dma_ran(
                caller_pid,
                arg0,
                arg1,
                page_aligned,
                has_io_capability,
                do_free_dma,
                a,
                c,
                f,
                r,
            ),
{
    let aligned = page_aligned(arg0 as usize);
    let vaddr: usize = match aligned {
        Ok(vaddr) => vaddr,
        Err(e) => {
            let r = KcallResult::Error(e.code);
            assert(free_dma_ran(caller_pid, arg0, arg1, page_aligned, has_io_capability, do_free_dma, aligned, Ok(true), Ok(()), r));
            return r;
        },
    };
    let nframes: usize = arg1 as usize;

    let capable = has_io_capability(caller_pid);
    match capable {
        Ok(true) => (),
        Ok(false) => {
            let r = KcallResult::Error(ErrorCode::PermissionDenied);
            assert(free_dma_ran(caller_pid, arg0, arg1, page_aligned, has_io_capability, do_free_dma, aligned, capable, Ok(()), r));
            return r;
        },
        Err(e) => {
            let r = KcallResult::Error(e.code);
            assert(free_dma_ran(caller_pid, arg0, arg1, page_aligned, has_io_capability, do_free_dma, aligned, capable, Ok(()), r));
            return r;
        },
    }

    let freed = do_free_dma(caller_pid, vaddr, nframes);
    let r = match freed {
        Ok(_) => KcallResult::Success,
        Err(e) => KcallResult::Error(e.code),
    };
    assert(free_dma_ran(caller_pid, arg0, arg1, page_aligned, has_io_capability, do_free_dma, aligned, capable, freed, r));
    r
}

} // verus!
