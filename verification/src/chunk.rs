//! Comparison of one source chunk against the destination bytes read at the
//! same position: the four-way verdict that drives the copy loop.

use vstd::prelude::*;

verus! {

/// Outcome of comparing the chunk just read from the source against the chunk
/// just read from the destination at the same offset.
#[derive(Clone, Copy, Debug, PartialEq, Eq, Structural)]
pub enum ChunkCmp {
    /// Same length and same bytes: nothing to write for this chunk.
    Matched,
    /// Same length but differing bytes: rewrite this chunk, then stream the rest.
    Diverged,
    /// The destination returned more bytes than the source: the source is
    /// exhausted and the destination carries stale content past this chunk.
    DestLonger,
    /// The destination returned fewer bytes than the source: the destination
    /// ran out, so this chunk and everything after it must be written.
    DestShorter,
}

/// True exactly when the two byte vectors hold the same bytes.
pub fn bytes_equal(a: &Vec<u8>, b: &Vec<u8>) -> (r: bool)
    ensures
        r <==> a@ == b@,
{
    if a.len() != b.len() {
        return false;
    }
    let n = a.len();
    let mut i: usize = 0;
    while i < n
        invariant
            n == a@.len(),
            n == b@.len(),
            i <= n,
            forall|j: int| 0 <= j < i ==> a@[j] == b@[j],
        decreases n - i,
    {
        if a[i] != b[i] {
            return false;
        }
        i = i + 1;
    }
    proof {
        assert(a@ =~= b@);
    }
    true
}

/// Classify a (source chunk, destination chunk) pair into the four verdicts.
/// The verdicts are exhaustive and mutually exclusive: length comparison
/// first, content comparison only when the lengths agree.
pub fn compare_chunks(source_chunk: &Vec<u8>, dest_chunk: &Vec<u8>) -> (r: ChunkCmp)
    ensures
        r == ChunkCmp::Matched <==> dest_chunk@ == source_chunk@,
        r == ChunkCmp::Diverged <==> (dest_chunk@.len() == source_chunk@.len()
            && dest_chunk@ != source_chunk@),
        r == ChunkCmp::DestLonger <==> dest_chunk@.len() > source_chunk@.len(),
        r == ChunkCmp::DestShorter <==> dest_chunk@.len() < source_chunk@.len(),
{
    if dest_chunk.len() > source_chunk.len() {
        ChunkCmp::DestLonger
    } else if dest_chunk.len() < source_chunk.len() {
        ChunkCmp::DestShorter
    } else if bytes_equal(source_chunk, dest_chunk) {
        ChunkCmp::Matched
    } else {
        ChunkCmp::Diverged
    }
}

} // verus!
