//! The segment itself: a write cursor over a fixed-size mapped region.

use vstd::prelude::*;

use crate::region::region_bytes;
use crate::region::region_flush_async;
use crate::region::region_len;
use crate::region::region_read;
use crate::region::region_write;
use crate::region::splice;

verus! {

/// What an operation on a segment can fail with.
///
/// The set is closed on purpose: the caller's recovery depends on which
/// variant it gets (`NoSpaceLeft` means rotate to a new segment,
/// `InvalidIndex` means the caller's offset bookkeeping is wrong, `Io` wraps
/// a failure of the operating system).
#[derive(Debug)]
pub enum Error {
    Io(std::io::Error),
    NoSpaceLeft,
    InvalidIndex,
}

/// One fixed-capacity, append-only segment of a logical log.
///
/// The mapped region always has exactly `max_size` bytes; `offset` is the
/// number of bytes written so far, and every byte at or past the cursor is
/// still zero.
#[derive(Debug)]
pub struct Log {
    mmap: memmap::MmapMut,
    base_offset: usize,
    max_size: usize,
    offset: usize,
}

impl Log {
    /// The bytes of the segment's mapped region.
    pub closed spec fn region(self) -> Seq<u8> {
        region_bytes(self.mmap)
    }

    /// The write cursor: how many bytes have been written so far.
    pub closed spec fn spec_offset(self) -> int {
        self.offset as int
    }

    /// The fixed byte capacity of the segment.
    pub closed spec fn spec_max_size(self) -> int {
        self.max_size as int
    }

    /// The logical position of this segment within the overall log.
    pub closed spec fn spec_base_offset(self) -> int {
        self.base_offset as int
    }

    /// The segment's invariant: the cursor stays within the capacity, the
    /// mapped region has exactly the capacity in bytes, and everything at or
    /// past the cursor is still zero.
    pub open spec fn wf(self) -> bool {
        &&& 0 <= self.spec_offset() <= self.spec_max_size()
        &&& self.region().len() == self.spec_max_size()
        &&& forall|i: int|
            self.spec_offset() <= i < self.spec_max_size() ==> self.region()[i] == 0u8
    }

    /// Takes ownership of a freshly mapped region and turns it into a
    /// segment with the cursor at zero. The region's length becomes the
    /// segment's fixed capacity. Any byte of the region that is not already
    /// zero is zeroed, so the segment always starts logically empty.
    pub fn from_region(region: memmap::MmapMut, base_offset: usize) -> (log: Log)
        ensures
            log.wf(),
            log.spec_offset() == 0,
            log.spec_base_offset() == base_offset as int,
            log.spec_max_size() == region_bytes(region).len(),
            forall|i: int| 0 <= i < log.spec_max_size() ==> log.region()[i] == 0u8,
    {
        let mut region = region;
        let ghost init: Seq<u8> = region_bytes(region);
        let max_size = region_len(&region);
        let zeroed = slice_all_zero(region_read(&region, 0, max_size));
        if !zeroed {
            let mut zeros: Vec<u8> = Vec::new();
            while zeros.len() < max_size
                invariant
                    zeros@.len() <= max_size,
                    forall|i: int| 0 <= i < zeros@.len() ==> zeros@[i] == 0u8,
                decreases max_size - zeros@.len(),
            {
                zeros.push(0u8);
            }
            region_write(&mut region, 0, zeros.as_slice());
            proof {
                assert(region_bytes(region) =~= zeros@);
            }
        }
        proof {
            assert forall|i: int| 0 <= i < region_bytes(region).len()
                implies region_bytes(region)[i] == 0u8 by {
                if zeroed {
                    assert(init.subrange(0, max_size as int)[i] == 0u8);
                    assert(init.subrange(0, max_size as int)[i] == init[i]);
                }
            }
        }
        Log { mmap: region, base_offset, max_size, offset: 0 }
    }

    /// The current write cursor: the number of bytes written so far, and the
    /// position the next write starts at.
    pub fn offset(&self) -> (r: usize)
        ensures
            r == self.spec_offset(),
    {
        self.offset
    }

    /// The logical position of this segment within the overall log.
    pub fn base_offset(&self) -> (r: usize)
        ensures
            r == self.spec_base_offset(),
    {
        self.base_offset
    }

    /// The fixed byte capacity of this segment.
    pub fn max_size(&self) -> (r: usize)
        ensures
            r == self.spec_max_size(),
    {
        self.max_size
    }

    /// Whether `size` more bytes still fit without exceeding the capacity.
    pub fn fit(&mut self, size: usize) -> (r: bool)
        requires
            old(self).wf(),
        ensures
            *final(self) == *old(self),
            r == (old(self).spec_max_size() - old(self).spec_offset() >= size),
    {
        (self.max_size - self.offset) >= size
    }

    /// Appends `buf` at the cursor. If `buf` does not fit in the remaining
    /// capacity, fails with `NoSpaceLeft` and changes nothing; otherwise
    /// copies `buf` into the region at the old cursor, advances the cursor by
    /// exactly `buf.len()`, and returns that length.
    pub fn write(&mut self, buf: &[u8]) -> (r: Result<usize, Error>)
        requires
            old(self).wf(),
        ensures
            final(self).wf(),
            final(self).spec_base_offset() == old(self).spec_base_offset(),
            final(self).spec_max_size() == old(self).spec_max_size(),
            buf@.len() <= old(self).spec_max_size() - old(self).spec_offset() ==> {
                &&& r == Ok::<usize, Error>(buf@.len() as usize)
                &&& final(self).spec_offset() == old(self).spec_offset() + buf@.len()
                &&& final(self).region() == splice(
                    old(self).region(),
                    old(self).spec_offset(),
                    buf@,
                )
            },
            buf@.len() > old(self).spec_max_size() - old(self).spec_offset() ==> {
                &&& r == Err::<usize, Error>(Error::NoSpaceLeft)
                &&& *final(self) == *old(self)
            },
    {
        let buf_size = buf.len();
        if !self.fit(buf_size) {
            return Err(Error::NoSpaceLeft);
        }
        region_write(&mut self.mmap, self.offset, buf);
        self.offset = self.offset + buf_size;
        proof {
            assert forall|i: int|
                self.spec_offset() <= i < self.spec_max_size()
                    implies self.region()[i] == 0u8 by {
                lemma_splice_keeps_tail(
                    old(self).region(),
                    old(self).spec_offset(),
                    buf@,
                    i,
                );
            }
        }
        Ok(buf_size)
    }

    /// Reads the `size` bytes that start at position `offset` of the region,
    /// whether or not they have been written yet. If the range does not lie
    /// within the region, fails with `InvalidIndex` and returns no bytes.
    pub fn read_at(&mut self, offset: usize, size: usize) -> (r: Result<&[u8], Error>)
        requires
            old(self).wf(),
        ensures
            *final(self) == *old(self),
            offset + size <= old(self).spec_max_size() ==> (r matches Ok(s) && s@ == old(self)
                .region()
                .subrange(offset as int, offset + size)),
            offset + size > old(self).spec_max_size() ==> r == Err::<&[u8], Error>(
                Error::InvalidIndex,
            ),
    {
        if size > self.max_size || offset > self.max_size - size {
            return Err(Error::InvalidIndex);
        }
        Ok(region_read(&self.mmap, offset, size))
    }

    /// Asks the operating system to persist the mapped region back to the
    /// backing file. The request is asynchronous: a success means the flush
    /// was initiated, not that the data is durable. The segment itself is
    /// unchanged; a failure of the request surfaces as `Io`.
    pub fn flush(&mut self) -> (r: Result<(), Error>)
        ensures
            *final(self) == *old(self),
            r matches Err(e) ==> e is Io,
    {
        match region_flush_async(&self.mmap) {
            Ok(()) => Ok(()),
            Err(e) => Err(Error::Io(e)),
        }
    }
}

/// After a successful append, reading the range that was just written yields
/// exactly the appended bytes: the hypotheses are what `write` ensures of a
/// segment that had room, and the conclusion is the sequence that `read_at`
/// returns for the range `[pre.offset, pre.offset + data.len())`.
pub proof fn lemma_write_then_read_round_trip(pre: Log, post: Log, data: Seq<u8>)
    requires
        pre.wf(),
        data.len() <= pre.spec_max_size() - pre.spec_offset(),
        post.region() == splice(pre.region(), pre.spec_offset(), data),
    ensures
        post.region().subrange(pre.spec_offset(), pre.spec_offset() + data.len() as int)
            == data,
{
    let at = pre.spec_offset();
    let n = data.len() as int;
    assert forall|i: int| 0 <= i < n implies post.region().subrange(at, at + n)[i] == data[i] by {
        assert(post.region()[at + i] == (pre.region().subrange(0, at) + data)[at + i]);
    }
    assert(post.region().subrange(at, at + n) =~= data);
}

/// Every byte at or past the cursor, up to the capacity, is still zero: the
/// sequence that `read_at` returns for a range of the unwritten tail is all
/// zeroes.
pub proof fn lemma_unwritten_region_zero(log: Log, lo: int, n: int)
    requires
        log.wf(),
        log.spec_offset() <= lo,
        0 <= n,
        lo + n <= log.spec_max_size(),
    ensures
        log.region().subrange(lo, lo + n) == Seq::new(n as nat, |i: int| 0u8),
{
    assert(log.region().subrange(lo, lo + n) =~= Seq::new(n as nat, |i: int| 0u8));
}

/// Writing exactly the remaining capacity is accepted and brings the cursor
/// to the capacity: the hypotheses are what `write` ensures when the data
/// fits, for data of exactly the remaining length.
pub proof fn lemma_exact_fit_reaches_capacity(pre: Log, post: Log, data: Seq<u8>)
    requires
        pre.wf(),
        data.len() == pre.spec_max_size() - pre.spec_offset(),
        post.spec_offset() == pre.spec_offset() + data.len(),
    ensures
        post.spec_offset() == pre.spec_max_size(),
{
}

/// The region never changes size: a well-formed segment's mapped region has
/// exactly the fixed capacity in bytes. Together with the clauses of `write`,
/// `read_at` and `flush` that keep `spec_max_size` unchanged, the backing
/// storage keeps its size across any sequence of operations.
pub proof fn lemma_fixed_capacity(log: Log)
    requires
        log.wf(),
    ensures
        log.region().len() == log.spec_max_size(),
{
}

/// A byte at or past the end of the spliced-in range is untouched by the
/// splice.
proof fn lemma_splice_keeps_tail(s: Seq<u8>, at: int, data: Seq<u8>, i: int)
    requires
        0 <= at,
        at + data.len() <= s.len(),
        at + data.len() <= i < s.len(),
    ensures
        splice(s, at, data)[i] == s[i],
{
    let tail = s.subrange(at + data.len() as int, s.len() as int);
    assert(splice(s, at, data)[i] == tail[i - at - data.len()]);
    assert(tail[i - at - data.len()] == s[i]);
}

/// Whether every byte of the slice is zero.
fn slice_all_zero(s: &[u8]) -> (r: bool)
    ensures
        r == forall|i: int| 0 <= i < s@.len() ==> s@[i] == 0u8,
{
    let n = s.len();
    let mut k: usize = 0;
    while k < n
        invariant
            k <= n,
            n == s@.len(),
            forall|i: int| 0 <= i < k ==> s@[i] == 0u8,
        decreases n - k,
    {
        if s[k] != 0 {
            return false;
        }
        k += 1;
    }
    true
}

} // verus!
