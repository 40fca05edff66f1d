//! Byte copies between packets and DMA buffers.

use vstd::prelude::*;

verus! {

/// `data` with `bytes` written over it from position `at` on.
pub open spec fn write_bytes(data: Seq<u8>, at: int, bytes: Seq<u8>) -> Seq<u8> {
    Seq::new(
        data.len(),
        |k: int|
            if at <= k < at + bytes.len() {
                bytes[k - at]
            } else {
                data[k]
            },
    )
}

/// Bytes written at `at` read back from there, and every other byte stays.
pub proof fn lemma_written_bytes_read_back(data: Seq<u8>, at: int, bytes: Seq<u8>)
    requires
        0 <= at,
        at + bytes.len() <= data.len(),
    ensures
        write_bytes(data, at, bytes).len() == data.len(),
        write_bytes(data, at, bytes).subrange(at, at + bytes.len()) == bytes,
        forall|k: int|
            0 <= k < data.len() && !(at <= k < at + bytes.len()) ==> #[trigger] write_bytes(
                data,
                at,
                bytes,
            )[k] == data[k],
{
    assert(write_bytes(data, at, bytes).subrange(at, at + bytes.len()) =~= bytes);
}

/// Copies `src` into `dst` from position `at` on.
pub fn copy_into(dst: &mut Vec<u8>, at: usize, src: &[u8])
    requires
        at + src@.len() <= old(dst)@.len(),
    ensures
        final(dst)@ == write_bytes(old(dst)@, at as int, src@),
{
    let ghost orig = dst@;
    let n = dst.len();
    let mut j: usize = 0;
    while j < src.len()
        invariant
            j <= src@.len(),
            n == orig.len(),
            dst@.len() == n,
            at + src@.len() <= orig.len(),
            dst@ == write_bytes(orig, at as int, src@.take(j as int)),
        decreases src@.len() - j,
    {
        dst.set(at + j, src[j]);
        j = j + 1;
        assert(dst@ =~= write_bytes(orig, at as int, src@.take(j as int)));
    }
    assert(src@.take(src@.len() as int) =~= src@);
}

/// The `len` bytes of `src` that start at position `at`.
pub fn copy_out(src: &Vec<u8>, at: usize, len: usize) -> (out: Vec<u8>)
    requires
        at + len <= src@.len(),
    ensures
        out@ == src@.subrange(at as int, at + len),
{
    let mut out: Vec<u8> = Vec::with_capacity(len);
    let n = src.len();
    let mut j: usize = 0;
    while j < len
        invariant
            j <= len,
            n == src@.len(),
            at + len <= src@.len(),
            out@ == src@.subrange(at as int, at + j),
        decreases len - j,
    {
        out.push(src[at + j]);
        j = j + 1;
        assert(out@ =~= src@.subrange(at as int, at + j));
    }
    out
}

} // verus!
