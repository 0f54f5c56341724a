//! The diff-copy engine: drain a source stream into a destination file,
//! writing only from the first chunk where the two diverge, and truncate
//! the destination to exactly the bytes the source produced.

use vstd::prelude::*;

use crate::chunk::ChunkCmp;
use crate::chunk::compare_chunks;
use crate::file_model::ByteReader;
use crate::file_model::SyncFile;
use crate::file_model::lemma_overwrite_append;
use crate::file_model::overwrite_at;

verus! {

/// The fixed size of one comparison window.
pub const CHUNK_SIZE: usize = 8192;

/// Copy every remaining source byte to the destination, starting at the
/// destination's current cursor, without any comparison.
fn copy_tail(source: &mut ByteReader, dest: &mut SyncFile, chunk_size: usize) -> (n: usize)
    requires
        old(source).wf(),
        old(dest).wf(),
        chunk_size >= 1,
        old(dest).cursor() + old(source).remaining().len() <= usize::MAX,
    ensures
        final(source).wf(),
        final(dest).wf(),
        final(source).contents() == old(source).contents(),
        final(source).cursor() == old(source).contents().len(),
        n as int == old(source).remaining().len(),
        final(dest).contents() == overwrite_at(
            old(dest).contents(),
            old(dest).cursor(),
            old(source).remaining(),
        ),
        final(dest).cursor() == old(dest).cursor() + n as int,
{
    let ghost src0 = *source;
    let ghost dst0 = *dest;
    let mut n: usize = 0;
    loop
        invariant
            source.wf(),
            dest.wf(),
            src0.wf(),
            dst0.wf(),
            chunk_size >= 1,
            source.contents() == src0.contents(),
            source.cursor() == src0.cursor() + n,
            n as int <= src0.remaining().len(),
            dst0.cursor() + src0.remaining().len() <= usize::MAX,
            dest.cursor() == dst0.cursor() + n,
            dest.contents() == overwrite_at(
                dst0.contents(),
                dst0.cursor(),
                src0.contents().subrange(src0.cursor(), src0.cursor() + n),
            ),
        ensures
            source.cursor() == src0.contents().len(),
        decreases src0.contents().len() - source.cursor(),
    {
        let sc = source.read_chunk(chunk_size);
        if sc.len() == 0 {
            break;
        }
        proof {
            lemma_overwrite_append(
                dst0.contents(),
                dst0.cursor(),
                src0.contents().subrange(src0.cursor(), src0.cursor() + n),
                sc@,
            );
        }
        dest.write_chunk(&sc);
        proof {
            assert(src0.contents().subrange(src0.cursor(), src0.cursor() + n) + sc@
                =~= src0.contents().subrange(src0.cursor(), src0.cursor() + n + sc@.len()));
        }
        n = n + sc.len();
    }
    proof {
        assert(src0.contents().subrange(src0.cursor(), src0.contents().len() as int)
            =~= src0.remaining());
    }
    n
}

/// The destination contents a successful sync leaves behind, whatever the
/// destination held before: exactly the bytes the source stream produced.
pub open spec fn synced(source: Seq<u8>, dest_before: Seq<u8>) -> Seq<u8> {
    source
}

/// Idempotence: a second sync of the same source bytes leaves the
/// destination exactly as the first sync left it. Together with the
/// written-bytes clause of `sync_to`, the second run also issues no write,
/// since the first run left the destination equal to the source.
pub proof fn lemma_sync_idempotent(source: Seq<u8>, dest_before: Seq<u8>)
    ensures
        synced(source, synced(source, dest_before)) == synced(source, dest_before),
{
}

/// No-op on exact match: a destination that already holds exactly the
/// source bytes comes out bit-for-bit unchanged.
pub proof fn lemma_exact_match_unchanged(source: Seq<u8>, dest_before: Seq<u8>)
    requires
        dest_before == source,
    ensures
        synced(source, dest_before) == dest_before,
{
}

/// Truncation: a destination longer than the source but byte-identical up
/// to the source's length comes out with exactly the source's length and
/// bytes — the stale tail is gone.
pub proof fn lemma_stale_tail_removed(source: Seq<u8>, dest_before: Seq<u8>)
    requires
        dest_before.len() >= source.len(),
        dest_before.take(source.len() as int) == source,
    ensures
        synced(source, dest_before) == source,
        synced(source, dest_before).len() == source.len(),
{
}

/// Bring `dest` into agreement with the remaining bytes of `source`,
/// comparing one window of up to `chunk_size` bytes at a time and writing
/// only from the first window where the two sides diverge, then truncating
/// the destination to the total number of source bytes.
///
/// Returns that total. When the destination already holds exactly the
/// source bytes, no write at all is issued.
pub fn sync_to(source: &mut ByteReader, dest: &mut SyncFile, chunk_size: usize) -> (copied: u64)
    requires
        old(source).wf(),
        old(dest).wf(),
        old(dest).cursor() == 0,
        chunk_size >= 1,
    ensures
        final(source).wf(),
        final(dest).wf(),
        final(dest).contents() == synced(old(source).remaining(), old(dest).contents()),
        copied as int == old(source).remaining().len(),
        final(source).contents() == old(source).contents(),
        final(source).cursor() == old(source).contents().len(),
        final(dest).cursor() == copied as int,
        old(dest).contents() == old(source).remaining()
            ==> final(dest).written() == old(dest).written(),
{
    let ghost src0 = *source;
    let ghost dst0 = *dest;
    let mut copied: usize = 0;
    loop
        invariant_except_break
            source.wf(),
            dest.wf(),
            src0.wf(),
            dst0.wf(),
            chunk_size >= 1,
            dst0.cursor() == 0,
            source.contents() == src0.contents(),
            source.cursor() == src0.cursor() + copied,
            copied as int <= src0.remaining().len(),
            dest.contents() == dst0.contents(),
            dest.written() == dst0.written(),
            dest.cursor() == copied as int,
            dest.contents().take(copied as int)
                == src0.contents().subrange(src0.cursor(), src0.cursor() + copied),
        ensures
            source.wf(),
            dest.wf(),
            source.contents() == src0.contents(),
            source.cursor() == src0.contents().len(),
            copied as int == src0.remaining().len(),
            dest.cursor() == copied as int,
            copied as int <= dest.contents().len(),
            dest.contents().take(copied as int) == src0.remaining(),
            dst0.contents() == src0.remaining() ==> dest.written() == dst0.written(),
        decreases src0.contents().len() - source.cursor(),
    {
        let ghost copied0 = copied as int;
        let sc = source.read_chunk(chunk_size);
        if sc.len() == 0 {
            // The source is exhausted without any divergence seen: the
            // destination prefix of length `copied` already equals it.
            proof {
                assert(src0.remaining().len() == copied0);
                assert(src0.contents().subrange(src0.cursor(), src0.cursor() + copied0)
                    =~= src0.remaining());
            }
            break;
        }
        let dc = dest.read_chunk(chunk_size);
        match compare_chunks(&sc, &dc) {
            ChunkCmp::Matched => {
                // This window already agrees: extend the matched prefix.
                proof {
                    assert(dest.contents().take(copied0 + dc@.len() as int)
                        =~= dest.contents().take(copied0)
                            + dest.contents().subrange(copied0, copied0 + dc@.len()));
                    assert(src0.contents().subrange(
                        src0.cursor(),
                        src0.cursor() + copied0 + sc@.len(),
                    ) =~= src0.contents().subrange(src0.cursor(), src0.cursor() + copied0)
                        + src0.contents().subrange(
                            src0.cursor() + copied0,
                            src0.cursor() + copied0 + sc@.len(),
                        ));
                }
                copied = copied + sc.len();
            }
            ChunkCmp::Diverged => {
                // Same window length, differing bytes: rewrite the window,
                // then stream everything the source still holds.
                proof {
                    if dst0.contents() == src0.remaining() {
                        assert(dc@ =~= sc@);
                        assert(false);
                    }
                }
                dest.rewind(dc.len());
                dest.write_chunk(&sc);
                copied = copied + sc.len();
                let more = copy_tail(source, dest, chunk_size);
                proof {
                    lemma_overwrite_append(
                        dst0.contents(),
                        copied0,
                        sc@,
                        src0.contents().subrange(
                            src0.cursor() + copied0 + sc@.len(),
                            src0.contents().len() as int,
                        ),
                    );
                }
                copied = copied + more;
                proof {
                    assert(dest.contents().take(copied as int) =~= src0.remaining());
                }
                break;
            }
            ChunkCmp::DestLonger => {
                // The destination returned more bytes than the source, so
                // the source window was short: the source is exhausted.
                // Rewrite the window; the stale tail falls to truncation.
                proof {
                    if dst0.contents() == src0.remaining() {
                        assert(false);
                    }
                }
                dest.rewind(dc.len());
                dest.write_chunk(&sc);
                copied = copied + sc.len();
                proof {
                    assert(dest.contents().take(copied as int) =~= src0.remaining());
                }
                break;
            }
            ChunkCmp::DestShorter => {
                // The destination ran out of bytes inside this window:
                // rewrite it, then stream everything the source still holds.
                proof {
                    if dst0.contents() == src0.remaining() {
                        assert(false);
                    }
                }
                dest.rewind(dc.len());
                dest.write_chunk(&sc);
                copied = copied + sc.len();
                let more = copy_tail(source, dest, chunk_size);
                proof {
                    lemma_overwrite_append(
                        dst0.contents(),
                        copied0,
                        sc@,
                        src0.contents().subrange(
                            src0.cursor() + copied0 + sc@.len(),
                            src0.contents().len() as int,
                        ),
                    );
                }
                copied = copied + more;
                proof {
                    assert(dest.contents().take(copied as int) =~= src0.remaining());
                }
                break;
            }
        }
    }
    dest.set_len(copied);
    proof {
        assert(dest.contents() == src0.remaining());
    }
    copied as u64
}

/// Bring `dest` into agreement with `source` using the engine's standard
/// window size.
pub fn sync(source: &mut ByteReader, dest: &mut SyncFile) -> (copied: u64)
    requires
        old(source).wf(),
        old(dest).wf(),
        old(dest).cursor() == 0,
    ensures
        final(source).wf(),
        final(dest).wf(),
        final(dest).contents() == synced(old(source).remaining(), old(dest).contents()),
        copied as int == old(source).remaining().len(),
        final(source).contents() == old(source).contents(),
        final(source).cursor() == old(source).contents().len(),
        final(dest).cursor() == copied as int,
        old(dest).contents() == old(source).remaining()
            ==> final(dest).written() == old(dest).written(),
{
    sync_to(source, dest, CHUNK_SIZE)
}

} // verus!
