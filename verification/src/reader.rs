//! Chunked file ingestion: the accumulation step of the read loop.
//!
//! The caller that owns the file handle reads into a fixed-size buffer
//! and hands each chunk here; a read error aborts the whole read with
//! an error for that file instead of retrying.

use vstd::prelude::*;

verus! {

/// The conventional read-buffer size.
pub const READ_SIZE: usize = 1024;

/// Appends the `count` bytes actually read to the accumulated contents
/// and decides whether to keep reading: a zero-length read is end of
/// file, and a read shorter than the buffer is treated as end of file
/// too.
pub fn chunk_step(acc: &mut Vec<u8>, chunk: &[u8], count: usize) -> (more: bool)
    requires
        count <= chunk@.len(),
    ensures
        final(acc)@ == old(acc)@ + chunk@.subrange(0, count as int),
        more == (count == chunk@.len() && count > 0),
{
    let mut i: usize = 0;
    while i < count
        invariant
            i <= count <= chunk@.len(),
            acc@.len() == old(acc)@.len() + i,
            forall|j: int| 0 <= j < old(acc)@.len() ==> acc@[j] == old(acc)@[j],
            forall|j: int| 0 <= j < i ==> acc@[old(acc)@.len() + j] == chunk@[j],
        decreases count - i,
    {
        acc.push(chunk[i]);
        i = i + 1;
    }
    proof {
        assert(acc@ =~= old(acc)@ + chunk@.subrange(0, count as int));
    }
    count == chunk.len() && count > 0
}

} // verus!
