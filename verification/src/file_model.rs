//! In-memory models of the two byte streams the engine works on: a source
//! that is read once, sequentially, and a destination file with a cursor
//! that can be read, rewound, overwritten and truncated.

use vstd::prelude::*;

verus! {

/// The contents of a file after `bytes` are written at offset `at`: the
/// prefix before `at` is kept, the written bytes replace what was there,
/// and whatever lay beyond the written region survives.
pub open spec fn overwrite_at(data: Seq<u8>, at: int, bytes: Seq<u8>) -> Seq<u8>
    recommends
        0 <= at <= data.len(),
{
    data.take(at) + bytes + if at + bytes.len() < data.len() {
        data.skip(at + bytes.len())
    } else {
        Seq::<u8>::empty()
    }
}

/// Two back-to-back writes land the same file contents as one write of the
/// concatenated bytes: the second write starts exactly where the first ended.
pub proof fn lemma_overwrite_append(data: Seq<u8>, at: int, b1: Seq<u8>, b2: Seq<u8>)
    requires
        0 <= at <= data.len(),
    ensures
        overwrite_at(overwrite_at(data, at, b1), at + b1.len(), b2)
            == overwrite_at(data, at, b1 + b2),
{
    let d1 = overwrite_at(data, at, b1);
    assert(d1.len() >= at + b1.len());
    assert(overwrite_at(d1, at + b1.len(), b2) =~= overwrite_at(data, at, b1 + b2));
}

/// Copy `count` bytes of `data` starting at `start` into a fresh vector.
fn copy_range(data: &Vec<u8>, start: usize, count: usize) -> (r: Vec<u8>)
    requires
        start + count <= data@.len(),
    ensures
        r@ == data@.subrange(start as int, start as int + count as int),
{
    let mut r: Vec<u8> = Vec::new();
    let mut i: usize = 0;
    while i < count
        invariant
            start + count <= data@.len(),
            i <= count,
            r@ == data@.subrange(start as int, start as int + i as int),
        decreases count - i,
    {
        proof {
            assert(data@.len() == data.len());
        }
        r.push(data[start + i]);
        proof {
            assert(r@ =~= data@.subrange(start as int, start as int + (i + 1) as int));
        }
        i = i + 1;
    }
    r
}

/// A source byte stream: readable once, sequentially, with no rewind.
pub struct ByteReader {
    data: Vec<u8>,
    pos: usize,
}

impl ByteReader {
    /// All bytes the stream was created with.
    pub closed spec fn contents(&self) -> Seq<u8> {
        self.data@
    }

    /// How many bytes have been consumed so far.
    pub closed spec fn cursor(&self) -> int {
        self.pos as int
    }

    /// The cursor never runs past the end of the stream, and the stream's
    /// length fits the machine.
    pub open spec fn wf(&self) -> bool {
        0 <= self.cursor() <= self.contents().len() <= usize::MAX
    }

    /// The bytes not yet consumed.
    pub open spec fn remaining(&self) -> Seq<u8>
        recommends
            self.wf(),
    {
        self.contents().skip(self.cursor())
    }

    /// A fresh stream over `data`, positioned at its start.
    pub fn new(data: Vec<u8>) -> (r: ByteReader)
        ensures
            r.wf(),
            r.contents() == data@,
            r.cursor() == 0,
    {
        proof {
            assert(data@.len() == data.len());
        }
        ByteReader { data, pos: 0 }
    }

    /// Read up to `max` bytes: exactly `max` while that many are left,
    /// fewer (or none) once the stream nears its end.
    pub fn read_chunk(&mut self, max: usize) -> (chunk: Vec<u8>)
        requires
            old(self).wf(),
        ensures
            final(self).wf(),
            final(self).contents() == old(self).contents(),
            chunk@.len() == if max as int <= old(self).remaining().len() {
                max as int
            } else {
                old(self).remaining().len() as int
            },
            chunk@ == old(self).contents().subrange(
                old(self).cursor(),
                old(self).cursor() + chunk@.len(),
            ),
            final(self).cursor() == old(self).cursor() + chunk@.len(),
    {
        let avail = self.data.len() - self.pos;
        let take = if max < avail { max } else { avail };
        let chunk = copy_range(&self.data, self.pos, take);
        self.pos = self.pos + take;
        chunk
    }
}

/// A destination file held in memory: a byte vector plus a read/write
/// cursor, together with a count of all bytes ever passed to a write.
pub struct SyncFile {
    data: Vec<u8>,
    pos: usize,
    bytes_written: u64,
}

impl SyncFile {
    /// The file's current bytes.
    pub closed spec fn contents(&self) -> Seq<u8> {
        self.data@
    }

    /// The current read/write position.
    pub closed spec fn cursor(&self) -> int {
        self.pos as int
    }

    /// Total bytes handed to writes over the file's lifetime (saturating).
    pub closed spec fn written(&self) -> u64 {
        self.bytes_written
    }

    /// The cursor never runs past the end of the file, and the file's
    /// length fits the machine.
    pub open spec fn wf(&self) -> bool {
        0 <= self.cursor() <= self.contents().len() <= usize::MAX
    }

    /// A file holding `data`, cursor at the start, no writes recorded.
    pub fn new(data: Vec<u8>) -> (r: SyncFile)
        ensures
            r.wf(),
            r.contents() == data@,
            r.cursor() == 0,
            r.written() == 0,
    {
        proof {
            assert(data@.len() == data.len());
        }
        SyncFile { data, pos: 0, bytes_written: 0 }
    }

    /// Read up to `max` bytes from the cursor, advancing it by however many
    /// bytes came back; a short (or empty) result means end of file.
    pub fn read_chunk(&mut self, max: usize) -> (chunk: Vec<u8>)
        requires
            old(self).wf(),
        ensures
            final(self).wf(),
            final(self).contents() == old(self).contents(),
            final(self).written() == old(self).written(),
            chunk@.len() == if old(self).cursor() + max as int <= old(self).contents().len() {
                max as int
            } else {
                old(self).contents().len() - old(self).cursor()
            },
            chunk@ == old(self).contents().subrange(
                old(self).cursor(),
                old(self).cursor() + chunk@.len(),
            ),
            final(self).cursor() == old(self).cursor() + chunk@.len(),
    {
        let avail = self.data.len() - self.pos;
        let take = if max < avail { max } else { avail };
        let chunk = copy_range(&self.data, self.pos, take);
        self.pos = self.pos + take;
        chunk
    }

    /// Move the cursor back by `n` bytes, to the start of a chunk just read.
    pub fn rewind(&mut self, n: usize)
        requires
            old(self).wf(),
            n as int <= old(self).cursor(),
        ensures
            final(self).wf(),
            final(self).contents() == old(self).contents(),
            final(self).written() == old(self).written(),
            final(self).cursor() == old(self).cursor() - n as int,
    {
        self.pos = self.pos - n;
    }

    /// Write `bytes` at the cursor, overwriting what is there and growing
    /// the file if the write runs past its end; the cursor advances past
    /// the written region.
    pub fn write_chunk(&mut self, bytes: &Vec<u8>)
        requires
            old(self).wf(),
            old(self).cursor() + bytes@.len() <= usize::MAX,
        ensures
            final(self).wf(),
            final(self).contents() == overwrite_at(
                old(self).contents(),
                old(self).cursor(),
                bytes@,
            ),
            final(self).cursor() == old(self).cursor() + bytes@.len(),
            final(self).contents().len() == if old(self).cursor() + bytes@.len()
                < old(self).contents().len() {
                old(self).contents().len() as int
            } else {
                old(self).cursor() + bytes@.len()
            },
            final(self).written() == if old(self).written() + bytes@.len() <= u64::MAX {
                (old(self).written() + bytes@.len()) as u64
            } else {
                u64::MAX
            },
    {
        let ghost orig = *self;
        let n = bytes.len();
        let mut i: usize = 0;
        while i < n
            invariant
                orig.wf(),
                n == bytes@.len(),
                i <= n,
                orig.cursor() + n <= usize::MAX,
                self.pos == orig.pos,
                self.bytes_written == orig.bytes_written,
                self.data@.len() == if orig.cursor() + i < orig.contents().len() {
                    orig.contents().len() as int
                } else {
                    orig.cursor() + i
                },
                self.data@ == overwrite_at(orig.contents(), orig.cursor(), bytes@.take(i as int)),
            decreases n - i,
        {
            let at = self.pos + i;
            if at < self.data.len() {
                self.data.set(at, bytes[i]);
            } else {
                self.data.push(bytes[i]);
            }
            proof {
                assert(self.data@ =~= overwrite_at(
                    orig.contents(),
                    orig.cursor(),
                    bytes@.take(i + 1),
                ));
            }
            i = i + 1;
        }
        proof {
            assert(bytes@.take(n as int) =~= bytes@);
        }
        self.pos = self.pos + n;
        let add = n as u64;
        if u64::MAX - self.bytes_written < add {
            self.bytes_written = u64::MAX;
        } else {
            self.bytes_written = self.bytes_written + add;
        }
    }

    /// Set the file's length to `n`, discarding everything beyond it; the
    /// cursor is clamped to the new end. Only shrinking is modelled, which
    /// is all the engine needs.
    pub fn set_len(&mut self, n: usize)
        requires
            old(self).wf(),
            n as int <= old(self).contents().len(),
        ensures
            final(self).wf(),
            final(self).contents() == old(self).contents().take(n as int),
            final(self).written() == old(self).written(),
            final(self).cursor() == if old(self).cursor() <= n as int {
                old(self).cursor()
            } else {
                n as int
            },
    {
        self.data.truncate(n);
        if self.pos > n {
            self.pos = n;
        }
    }

    /// The file's current length in bytes.
    pub fn len(&self) -> (r: usize)
        ensures
            r as int == self.contents().len(),
    {
        self.data.len()
    }

    /// Borrow the file's current bytes.
    pub fn bytes(&self) -> (r: &Vec<u8>)
        ensures
            r@ == self.contents(),
    {
        &self.data
    }

    /// Total bytes handed to writes so far.
    pub fn bytes_written(&self) -> (r: u64)
        ensures
            r == self.written(),
    {
        self.bytes_written
    }
}

} // verus!
