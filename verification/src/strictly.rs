//! Buffer with a strict limit on the chunk sizes.

use crate::chunked::{
    contents_of, drains, ingests, keeps_tail, lesser_of, reservation_for, yields, AdvanceStopped,
    Inner, Reservation, WriteError,
};
use crate::iter::{DrainChunks, IntoChunks};
use crate::loosely::lemma_advanced_staging;
use crate::model::{
    lemma_advanced, lemma_flushed, lemma_ingested, lemma_split_pieces, lemma_written,
    split_pieces, BufferView,
};
use crate::storage::{range_bytes, MAX_REGION_LEN, MIN_VIEW_RESERVE};
use bytes::Bytes;
use vstd::prelude::*;
use vstd::slice::slice_subrange;
use vstd::string::StringSliceAdditionalSpecFns;

verus! {

/// A non-contiguous buffer for efficient serialization of data structures.
///
/// A `ChunkedBytes` container has a staging region to coalesce small byte
/// sequences of source data, and a queue of byte chunks split off the
/// staging region that can be incrementally consumed by an output API.
///
/// Unlike `loosely::ChunkedBytes`, this variant of the container never
/// produces chunks larger than the configured size. This comes at a cost of
/// increased processing overhead and sometimes more allocated memory needed
/// to keep the buffered data, so the applications that don't benefit from
/// the strict limit should prefer `loosely::ChunkedBytes`.
#[derive(Debug)]
pub struct ChunkedBytes {
    inner: Inner,
    // The staging region may be given more room than it was asked for, so
    // the room that may be used is counted here.
    cap: usize,
}

impl View for ChunkedBytes {
    type V = BufferView;

    /// The bytes held, chunk by chunk.
    open spec fn view(&self) -> BufferView {
        self.engine()@
    }
}

impl Default for ChunkedBytes {
    fn default() -> (buf: ChunkedBytes)
        ensures
            buf.wf(),
            buf@ == BufferView::new(),
            buf.queue() == Seq::<Bytes>::empty(),
            buf.chunk_size_limit() == crate::chunked::DEFAULT_CHUNK_SIZE,
            buf.cap() == 0,
    {
        ChunkedBytes { inner: Inner::default(), cap: 0 }
    }
}

impl ChunkedBytes {
    /// The engine that the buffer is built on.
    pub closed spec fn engine(&self) -> Inner {
        self.inner
    }

    /// The ceiling on the length of the staging region, for contracts.
    pub closed spec fn spec_cap(&self) -> usize {
        self.cap
    }

    /// The ceiling on the length of the staging region: the bytes staged
    /// never outnumber it, and it is never above the chunk size limit. It
    /// is raised when room is reserved and comes down as staged bytes are
    /// read.
    #[verifier::when_used_as_spec(spec_cap)]
    pub fn cap(&self) -> (cap: usize)
        ensures
            cap == self.cap(),
    {
        self.cap
    }

    /// The queued chunks themselves, oldest first.
    pub open spec fn queue(&self) -> Seq<Bytes> {
        self.engine().queue()
    }

    /// The configured chunk size limit.
    pub open spec fn spec_chunk_size_limit(&self) -> usize {
        self.engine().chunk_size()
    }

    /// The invariant of the buffer: no queued chunk is empty, no queued
    /// chunk is longer than the limit, and the staged bytes stay under
    /// their ceiling, which stays under the limit.
    pub open spec fn wf(&self) -> bool {
        &&& self.engine().wf()
        &&& self@.bounded(self.chunk_size_limit() as nat)
        &&& self@.staging.len() <= self.cap() <= self.chunk_size_limit()
    }

    /// Whether the staging region is filled up to its ceiling, so that the
    /// next writable view has to reserve room.
    pub open spec fn at_ceiling(&self) -> bool {
        self@.staging.len() == self.spec_cap()
    }

    /// The reservation that `plan_reservation` plans for a staging region
    /// of this buffer that reports a capacity of `capacity` bytes.
    pub open spec fn planned(&self, capacity: usize) -> Reservation {
        reservation_for(capacity, self.spec_chunk_size_limit())
    }

    /// Whether the chunk size limit is one that the staging region can be
    /// asked to make room for.
    pub open spec fn writable(&self) -> bool {
        self.chunk_size_limit() + MIN_VIEW_RESERVE <= MAX_REGION_LEN
    }

    /// Creates a new `ChunkedBytes` container with the chunk size limit set
    /// to a default value.
    pub fn new() -> (buf: ChunkedBytes)
        ensures
            buf.wf(),
            buf@ == BufferView::new(),
            buf.queue() == Seq::<Bytes>::empty(),
            buf.chunk_size_limit() == crate::chunked::DEFAULT_CHUNK_SIZE,
            buf.cap() == 0,
    {
        ChunkedBytes { inner: Inner::default(), cap: 0 }
    }

    /// Creates a new `ChunkedBytes` container with the given chunk size
    /// limit.
    pub fn with_chunk_size_limit(chunk_size: usize) -> (buf: ChunkedBytes)
        ensures
            buf.wf(),
            buf@ == BufferView::new(),
            buf.queue() == Seq::<Bytes>::empty(),
            buf.chunk_size_limit() == chunk_size,
            buf.cap() == 0,
    {
        ChunkedBytes { inner: Inner::with_chunk_size(chunk_size), cap: 0 }
    }

    /// The fully detailed constructor for `ChunkedBytes`. The chunk size
    /// limit is given in `chunk_size`, and an upper estimate of the number
    /// of chunks this container could be expected to have at any moment of
    /// time should be given in `chunking_capacity`. More chunks can still
    /// be held, but this may cause reallocations of internal data
    /// structures.
    pub fn with_profile(chunk_size: usize, chunking_capacity: usize) -> (buf: ChunkedBytes)
        ensures
            buf.wf(),
            buf@ == BufferView::new(),
            buf.queue() == Seq::<Bytes>::empty(),
            buf.chunk_size_limit() == chunk_size,
            buf.cap() == 0,
    {
        ChunkedBytes { inner: Inner::with_profile(chunk_size, chunking_capacity), cap: 0 }
    }

    /// Returns the size this `ChunkedBytes` container uses as the limit for
    /// splitting off complete chunks.
    ///
    /// Note that the size of produced chunks may be smaller than the
    /// configured value, due to the allocation strategy used internally and
    /// also depending on the pattern of usage.
    #[verifier::when_used_as_spec(spec_chunk_size_limit)]
    pub fn chunk_size_limit(&self) -> (size: usize)
        ensures
            size == self.chunk_size_limit(),
    {
        self.inner.chunk_size()
    }

    /// Returns true if the `ChunkedBytes` container has no complete chunks
    /// and the staging region is empty.
    pub fn is_empty(&self) -> (empty: bool)
        ensures
            empty == (self@.chunks.len() == 0 && self@.staging.len() == 0),
            self.wf() ==> empty == (self@.remaining() == 0),
    {
        self.inner.is_empty()
    }

    /// The number of bytes in the staging region.
    pub fn staging_len(&self) -> (len: usize)
        ensures
            len == self@.staging.len(),
    {
        self.inner.staging_len()
    }

    /// The number of bytes that the staging region can hold without
    /// reallocating. It is the allocator's to give; the staged bytes fit in
    /// any case.
    pub fn staging_capacity(&self) -> (capacity: usize)
        ensures
            capacity >= self@.staging.len(),
    {
        self.inner.staging_capacity()
    }

    /// Splits any bytes that are currently in the staging region into a new
    /// complete chunk. If the staging region is empty, this method does
    /// nothing.
    ///
    /// Most users should not need to call this method. It is called
    /// internally when needed by the methods that advance the writing
    /// position.
    pub fn flush(&mut self)
        requires
            old(self).wf(),
        ensures
            final(self).wf(),
            final(self)@ == old(self)@.flushed(),
            final(self)@.content() == old(self)@.content(),
            old(self).queue().is_prefix_of(final(self).queue()),
            final(self).chunk_size_limit() == old(self).chunk_size_limit(),
            final(self).cap() == old(self).cap(),
    {
        proof {
            lemma_flushed(self@);
        }
        self.inner.flush()
    }

    /// Appends a `Bytes` slice to the container without copying the data.
    ///
    /// If `src` is empty, this method does nothing. Otherwise, if there are
    /// any bytes currently in the staging region, they are split to form a
    /// complete chunk. Next, `src` is appended as a sequence of chunks,
    /// split if necessary so that all chunks except the last are sized to
    /// the chunk size limit. A range that is not longer than the limit is
    /// queued whole, as the handle that it is.
    pub fn put_bytes(&mut self, src: Bytes)
        requires
            old(self).wf(),
            range_bytes(src).len() > 0 ==> old(self).chunk_size_limit() > 0,
        ensures
            final(self).wf(),
            final(self).chunk_size_limit() == old(self).chunk_size_limit(),
            final(self).cap() == old(self).cap(),
            final(self)@ == old(self)@.ingested(
                split_pieces(range_bytes(src), old(self).chunk_size_limit() as nat),
            ),
            final(self)@.content() == old(self)@.content() + range_bytes(src),
            old(self).queue().is_prefix_of(final(self).queue()),
            range_bytes(src).len() <= old(self).chunk_size_limit() ==> ingests(
                old(self).engine(),
                final(self).engine(),
                src,
            ),
    {
        let ghost limit = self.chunk_size_limit() as nat;
        let ghost all = range_bytes(src);
        proof {
            if limit > 0 {
                lemma_split_pieces(all, limit);
            }
            lemma_ingested(self@, split_pieces(all, limit));
            if all.len() == 0 {
                assert(self@.content() + all =~= self@.content());
            }
        }
        let ghost given = src;
        if !src.is_empty() {
            self.flush();
            let ghost base = self@;
            let chunk_size = self.inner.chunk_size();
            let mut src = src;
            assert(base.chunks + split_pieces(all, limit) =~= old(self)@.flushed().chunks
                + split_pieces(all, limit));
            while src.len() > chunk_size
                invariant
                    self.wf(),
                    chunk_size == limit,
                    limit > 0,
                    chunk_size == self.chunk_size_limit(),
                    self.chunk_size_limit() == old(self).chunk_size_limit(),
                    self.cap() == old(self).cap(),
                    self@.staging.len() == 0,
                    range_bytes(src).len() > 0,
                    self@.chunks + split_pieces(range_bytes(src), limit)
                        == old(self)@.flushed().chunks + split_pieces(all, limit),
                    old(self).queue().is_prefix_of(self.queue()),
                    all.len() > limit || range_bytes(src) == all,
                    all.len() <= limit ==> src == given,
                decreases range_bytes(src).len(),
            {
                let ghost before = self@;
                let ghost whole = range_bytes(src);
                let head = src.split_to(chunk_size);
                self.inner.push_chunk(head);
                proof {
                    assert(before.chunks.push(range_bytes(head)) + split_pieces(
                        range_bytes(src),
                        limit,
                    ) =~= before.chunks + split_pieces(whole, limit));
                    lemma_pushed_bounded(before, range_bytes(head), limit);
                }
            }
            let ghost before = self@;
            let ghost last = range_bytes(src);
            self.inner.push_chunk(src);
            proof {
                assert(before.chunks.push(last) =~= before.chunks + split_pieces(last, limit));
                lemma_pushed_bounded(before, last, limit);
                assert(self@.staging =~= Seq::empty());
            }
        } else {
            assert(all =~= Seq::empty());
        }
    }

    /// Removes the complete chunks from the `ChunkedBytes` container and
    /// hands them out, oldest first. This does not include bytes in the
    /// staging region. None of the chunks is empty, and none is longer than
    /// the chunk size limit.
    ///
    /// The chunks are removed even if the returned value is dropped without
    /// being consumed until the end.
    pub fn drain_chunks(&mut self) -> (drained: DrainChunks)
        requires
            old(self).wf(),
        ensures
            final(self).wf(),
            drains(old(self).engine(), final(self).engine(), drained@),
            final(self).cap() == old(self).cap(),
            forall|i: int|
                0 <= i < drained@.len() ==> 0 < range_bytes(#[trigger] drained@[i]).len()
                    <= old(self).chunk_size_limit(),
    {
        assert forall|i: int| 0 <= i < self.queue().len() implies 0 < range_bytes(
            #[trigger] self.queue()[i],
        ).len() <= self.chunk_size_limit() by {
            assert(self@.chunks[i] == range_bytes(self.queue()[i]));
        }
        let drained = self.inner.drain_chunks();
        assert(drained@ == old(self).queue());
        drained
    }

    /// Consumes the `ChunkedBytes` container to hand out its chunks. If
    /// there are bytes in the staging region, they are yielded as the last
    /// chunk. None of the chunks is empty, and none is longer than the
    /// chunk size limit.
    pub fn into_chunks(self) -> (chunks: IntoChunks)
        requires
            self.wf(),
        ensures
            yields(self.engine(), chunks@),
            forall|i: int|
                0 <= i < chunks@.len() ==> 0 < range_bytes(#[trigger] chunks@[i]).len()
                    <= self.chunk_size_limit(),
    {
        proof {
            lemma_flushed(self@);
        }
        let chunks = self.inner.into_chunks();
        assert forall|i: int| 0 <= i < chunks@.len() implies 0 < range_bytes(
            #[trigger] chunks@[i],
        ).len() <= self.chunk_size_limit() by {
            assert(contents_of(chunks@)[i] == range_bytes(chunks@[i]));
            assert(self@.flushed().chunks[i].len() > 0);
        }
        chunks
    }

    /// The number of bytes that can be written to the staging region
    /// before it has to grow or reaches its ceiling.
    pub fn remaining_mut(&self) -> (room: usize)
        requires
            self.wf(),
        ensures
            room + self@.staging.len() <= self.cap(),
    {
        room_under_ceiling(self.inner.remaining_mut(), self.inner.staging_len(), self.cap)
    }

    /// The length of the writable view at the write cursor: the room that
    /// the staging region reports, but not more than the ceiling, as
    /// `chunk_mut_with` finds it from the capacity of the region. A staging
    /// region that is filled up to the ceiling reserves room first, which
    /// may split the staged bytes off as a chunk, and the ceiling becomes
    /// the capacity then reported or the chunk size limit, whichever is
    /// less: the full limit, where the staged bytes were split off. The
    /// view is empty only under a ceiling of zero. Under a limit of two or
    /// more there is room under the ceiling afterwards, and the view is not
    /// empty; under a limit of one a full staging region stays full.
    pub fn chunk_mut(&mut self) -> (len: usize)
        requires
            old(self).wf(),
            old(self).writable(),
        ensures
            final(self).wf(),
            len <= final(self).cap(),
            len == 0 <==> final(self).cap() == 0,
            old(self).chunk_size_limit() >= 2 ==> final(self).cap() > final(self)@.staging.len()
                && len > 0,
            old(self)@.staging.len() > 0 && final(self)@.staging.len() == 0 ==> final(self).cap()
                == old(self).chunk_size_limit(),
            final(self)@ == old(self)@ || final(self)@ == old(self)@.flushed(),
            final(self)@.content() == old(self)@.content(),
            old(self)@.staging.len() < old(self).cap() ==> final(self)@ == old(self)@
                && final(self).cap() == old(self).cap(),
            old(self).queue().is_prefix_of(final(self).queue()),
            final(self).chunk_size_limit() == old(self).chunk_size_limit(),
    {
        let capacity = self.inner.staging_capacity();
        self.chunk_mut_with(capacity)
    }

    /// The length of the writable view of a buffer whose staging region
    /// reports a capacity of `capacity` bytes.
    ///
    /// A staging region with room under the ceiling is left as it is, and
    /// so is the ceiling: the view is the room that the region has, or the
    /// ceiling where that is less. A staging region that is filled up to
    /// the ceiling reserves room first, as `plan_reservation` plans it for
    /// that capacity: the staged bytes are split off as a chunk if the plan
    /// says so, and the ceiling becomes the capacity then reported or the
    /// chunk size limit, whichever is less. Where the staged bytes are
    /// split off, both the ceiling and the view are the full limit.
    pub fn chunk_mut_with(&mut self, capacity: usize) -> (len: usize)
        requires
            old(self).wf(),
            old(self).writable(),
            capacity >= old(self)@.staging.len(),
        ensures
            final(self).wf(),
            final(self)@ == if old(self).at_ceiling() && old(self).planned(capacity).flush {
                old(self)@.flushed()
            } else {
                old(self)@
            },
            !old(self).at_ceiling() ==> final(self).cap() == old(self).cap(),
            !old(self).at_ceiling() && old(self)@.staging.len() < capacity ==> len == if capacity
                - old(self)@.staging.len() < old(self).cap() {
                capacity - old(self)@.staging.len()
            } else {
                old(self).cap() as int
            },
            old(self).at_ceiling() && old(self).planned(capacity).flush ==> final(self).cap()
                == old(self).chunk_size_limit() && len == old(self).chunk_size_limit(),
            old(self).at_ceiling() ==> final(self).cap() == old(self).chunk_size_limit()
                || final(self).cap() >= final(self)@.staging.len() + old(self).planned(
                capacity,
            ).additional,
            old(self).at_ceiling() ==> len == final(self).cap() || len >= old(self).planned(
                capacity,
            ).additional,
            len <= final(self).cap(),
            len == 0 <==> final(self).cap() == 0,
            old(self).chunk_size_limit() >= 2 ==> final(self).cap() > final(self)@.staging.len()
                && len > 0,
            old(self)@.staging.len() > 0 && final(self)@.staging.len() == 0 ==> final(self).cap()
                == old(self).chunk_size_limit(),
            final(self)@.content() == old(self)@.content(),
            old(self).queue().is_prefix_of(final(self).queue()),
            final(self).chunk_size_limit() == old(self).chunk_size_limit(),
    {
        proof {
            lemma_flushed(self@);
        }
        let reported = if self.inner.staging_len() == self.cap {
            let reported = self.inner.reserve_staging_with(capacity);
            self.cap = lesser_of(reported, self.inner.chunk_size());
            reported
        } else {
            capacity
        };
        let raw = self.inner.chunk_mut_with(reported);
        lesser_of(raw, self.cap)
    }

    /// Commits `src` to the staging region: the bytes are appended at the
    /// write cursor and the cursor moves past them. The bytes have to fit
    /// under the ceiling.
    pub fn advance_mut(&mut self, src: &[u8])
        requires
            old(self).wf(),
            old(self)@.staging.len() + src@.len() <= old(self).cap(),
            old(self)@.staging.len() + src@.len() <= MAX_REGION_LEN,
        ensures
            final(self).wf(),
            final(self)@ == old(self)@.written(src@),
            final(self)@.content() == old(self)@.content() + src@,
            final(self).queue() == old(self).queue(),
            final(self).chunk_size_limit() == old(self).chunk_size_limit(),
            final(self).cap() == old(self).cap(),
    {
        self.inner.advance_mut(src);
        assert(self@.chunks == old(self)@.chunks);
    }

    /// Writes all of `src`: as often as needed, the writable view is asked
    /// for and as much of `src` as fits in it and under the ceiling is
    /// committed. Where the staging region is full to its ceiling and
    /// reserving does not raise it, the staged bytes are split off and the
    /// region starts again under the full limit. The bytes read back from
    /// the buffer are those that were there, followed by `src`, and no
    /// chunk is longer than the limit.
    pub fn put_slice(&mut self, src: &[u8])
        requires
            old(self).wf(),
            old(self).writable(),
            old(self).chunk_size_limit() > 0,
        ensures
            final(self).wf(),
            final(self)@.content() == old(self)@.content() + src@,
            old(self).queue().is_prefix_of(final(self).queue()),
            final(self).chunk_size_limit() == old(self).chunk_size_limit(),
    {
        let mut off: usize = 0;
        assert(old(self)@.content() + src@.take(0) =~= old(self)@.content());
        while off < src.len()
            invariant
                self.wf(),
                self.writable(),
                self.chunk_size_limit() > 0,
                off <= src@.len(),
                self@.content() == old(self)@.content() + src@.take(off as int),
                old(self).queue().is_prefix_of(self.queue()),
                self.chunk_size_limit() == old(self).chunk_size_limit(),
            decreases src@.len() - off,
        {
            let ghost before = self@;
            let view = self.chunk_mut();
            let room = self.cap - self.inner.staging_len();
            let rest = src.len() - off;
            let mut n = if view < room {
                view
            } else {
                room
            };
            if rest < n {
                n = rest;
            }
            proof {
                lemma_flushed(before);
                lemma_flushed(self@);
            }
            if n == 0 {
                self.inner.flush();
                let limit = self.inner.chunk_size();
                self.cap = limit;
                n = if rest < limit {
                    rest
                } else {
                    limit
                };
            }
            let ghost reserved = self@;
            let piece = slice_subrange(src, off, off + n);
            self.advance_mut(piece);
            proof {
                lemma_written(reserved, piece@);
                assert(src@.take(off as int) + piece@ =~= src@.take(off + n));
            }
            off = off + n;
        }
        assert(src@.take(off as int) =~= src@);
    }

    /// Writes the bytes of `s`, if the buffer can take them: an error is
    /// returned, and nothing written, where the chunk size limit is zero or
    /// more than a staging region can be asked to hold.
    pub fn write_str(&mut self, s: &str) -> (res: Result<(), WriteError>)
        requires
            old(self).wf(),
        ensures
            final(self).wf(),
            final(self).chunk_size_limit() == old(self).chunk_size_limit(),
            old(self).queue().is_prefix_of(final(self).queue()),
            res.is_ok() <==> old(self).writable() && old(self).chunk_size_limit() > 0,
            res.is_ok() ==> final(self)@.content() == old(self)@.content() + s.spec_bytes(),
            res.is_err() ==> final(self)@ == old(self)@ && final(self).queue() == old(self).queue()
                && final(self).cap() == old(self).cap(),
    {
        let size = self.inner.chunk_size();
        if 0 < size && size <= MAX_REGION_LEN - MIN_VIEW_RESERVE {
            self.put_slice(s.as_bytes());
            Ok(())
        } else {
            Err(WriteError)
        }
    }

    /// The number of unread bytes: those of all the complete chunks and
    /// those in the staging region.
    pub fn remaining(&self) -> (len: usize)
        requires
            self@.remaining() <= usize::MAX,
        ensures
            len == self@.remaining(),
    {
        self.inner.remaining()
    }

    /// The number of unread bytes, or `limit` if there are more than that.
    /// This can be asked of any buffer, however much it holds.
    pub fn remaining_up_to(&self, limit: usize) -> (len: usize)
        ensures
            len == if self@.remaining() <= limit {
                self@.remaining()
            } else {
                limit as nat
            },
    {
        self.inner.remaining_up_to(limit)
    }

    /// Whether there is anything left to read.
    pub fn has_remaining(&self) -> (any: bool)
        ensures
            any == !(self@.chunks.len() == 0 && self@.staging.len() == 0),
            self.wf() ==> any == (self@.remaining() > 0),
    {
        !self.inner.is_empty()
    }

    /// Returns a slice of the bytes in the first extant complete chunk, or
    /// the bytes in the staging region if there are no unconsumed chunks.
    /// The slice is never longer than the chunk size limit.
    ///
    /// It is more efficient to use `chunks_vectored` to gather all the
    /// disjoint slices for vectored output.
    pub fn chunk(&self) -> (slice: &[u8])
        ensures
            slice@ == self@.front(),
            self.wf() ==> slice@ == self@.content().take(slice@.len() as int),
            self.wf() ==> (slice@.len() == 0 <==> self@.remaining() == 0),
            self.wf() ==> slice@.len() <= self.chunk_size_limit(),
    {
        self.inner.chunk()
    }

    /// Advances the reading position by `cnt`, dropping the `Bytes`
    /// references to any complete chunks that the position has been
    /// advanced past and then advancing the starting position of the first
    /// remaining chunk. If there are no complete chunks left, the reading
    /// position is advanced in the staging region, effectively removing the
    /// consumed bytes; the ceiling of the staging region comes down by as
    /// many.
    pub fn advance(&mut self, cnt: usize)
        requires
            old(self).wf(),
            cnt <= old(self)@.remaining(),
        ensures
            final(self).wf(),
            final(self)@ == old(self)@.advanced(cnt as nat),
            final(self)@.content() == old(self)@.content().skip(cnt as int),
            final(self).chunk_size_limit() == old(self).chunk_size_limit(),
            final(self).cap() == if cnt >= old(self)@.queued().len() {
                old(self).cap() - (cnt - old(self)@.queued().len())
            } else {
                old(self).cap() as int
            },
            keeps_tail(old(self).queue(), final(self).queue()),
    {
        proof {
            lemma_advanced(self@, cnt as nat);
            lemma_advanced_staging(self@, cnt as nat);
        }
        match self.inner.advance(cnt) {
            AdvanceStopped::InChunk => {},
            AdvanceStopped::InStaging(adv) => {
                self.cap = self.cap - adv;
            },
        }
    }

    /// Fills `dst` sequentially with the slice views of the chunks, then
    /// the bytes in the staging region if any remain and there is another
    /// unfilled entry left in `dst`. Returns the number of entries filled.
    /// No slice is longer than the chunk size limit.
    pub fn chunks_vectored<'a>(&'a self, dst: &mut [&'a [u8]]) -> (filled: usize)
        ensures
            final(dst)@.len() == old(dst)@.len(),
            filled == if old(dst)@.len() <= self@.slices().len() {
                old(dst)@.len()
            } else {
                self@.slices().len()
            },
            forall|i: int| 0 <= i < filled ==> (#[trigger] final(dst)@[i])@ == self@.slices()[i],
            forall|i: int|
                filled <= i < old(dst)@.len() ==> #[trigger] final(dst)@[i] == old(dst)@[i],
            self.wf() ==> forall|i: int|
                0 <= i < filled ==> (#[trigger] final(dst)@[i])@.len() <= self.chunk_size_limit(),
    {
        let filled = self.inner.chunks_vectored(dst);
        assert(self.wf() ==> forall|i: int|
            0 <= i < filled ==> (#[trigger] dst@[i])@.len() <= self.chunk_size_limit()) by {
            if self.wf() {
                assert forall|i: int| 0 <= i < filled implies (#[trigger] dst@[i])@.len()
                    <= self.chunk_size_limit() by {
                    assert(dst@[i]@ == self@.slices()[i]);
                    if i < self@.chunks.len() {
                        assert(self@.slices()[i] == self@.chunks[i]);
                    }
                }
            }
        }
        filled
    }

    /// Removes up to `len` unread bytes from the front and returns them as
    /// one contiguous range; fewer than `len` only when the buffer holds no
    /// more. Bytes are copied only where more than one source has to be
    /// joined. The ceiling of the staging region comes down by the number
    /// of bytes that leave the region.
    pub fn copy_to_bytes(&mut self, len: usize) -> (taken: Bytes)
        requires
            old(self).wf(),
            len <= MAX_REGION_LEN || old(self)@.remaining() <= MAX_REGION_LEN,
        ensures
            final(self).wf(),
            final(self).chunk_size_limit() == old(self).chunk_size_limit(),
            final(self).cap() == old(self).cap() - (old(self)@.staging.len()
                - final(self)@.staging.len()),
            range_bytes(taken) == old(self)@.content().take(old(self)@.take_len(len as nat) as int),
            final(self)@ == old(self)@.advanced(old(self)@.take_len(len as nat)),
            final(self)@.content() == old(self)@.content().skip(
                old(self)@.take_len(len as nat) as int,
            ),
            old(self)@.front_meets(len as nat) ==> taken == old(self).queue()[0],
    {
        proof {
            let cnt = if len <= self@.remaining() {
                len as nat
            } else {
                self@.remaining()
            };
            lemma_advanced(self@, cnt);
            lemma_advanced_staging(self@, cnt);
        }
        let staged = self.inner.staging_len();
        let taken = self.inner.copy_to_bytes(len);
        self.cap = self.cap - (staged - self.inner.staging_len());
        taken
    }

    /// Removes all unread bytes and returns them as one contiguous range.
    /// Nothing is copied where the buffer holds a single source.
    pub fn to_bytes(&mut self) -> (taken: Bytes)
        requires
            old(self).wf(),
            old(self)@.remaining() <= MAX_REGION_LEN,
        ensures
            final(self).wf(),
            final(self)@ == BufferView::new(),
            final(self).queue() == Seq::<Bytes>::empty(),
            final(self).chunk_size_limit() == old(self).chunk_size_limit(),
            final(self).cap() == old(self).cap(),
            range_bytes(taken) == old(self)@.content(),
            old(self).queue().len() == 1 && old(self)@.staging.len() == 0
                ==> taken == old(self).queue()[0],
    {
        self.inner.take_bytes()
    }
}

/// The room for more bytes in a staging region that has room for `raw`
/// more bytes before it grows, and holds `staged` bytes under a ceiling of
/// `cap`: the lesser of the room in the region and the room under the
/// ceiling.
pub fn room_under_ceiling(raw: usize, staged: usize, cap: usize) -> (room: usize)
    requires
        staged <= cap,
    ensures
        room == if raw < cap - staged {
            raw as int
        } else {
            cap - staged
        },
{
    lesser_of(raw, cap - staged)
}

/// A queue stays within its limit when a chunk within the limit joins it.
pub proof fn lemma_pushed_bounded(view: BufferView, chunk: Seq<u8>, limit: nat)
    requires
        view.bounded(limit),
        chunk.len() <= limit,
    ensures
        (BufferView { chunks: view.chunks.push(chunk), staging: view.staging }).bounded(limit),
{
    let after = BufferView { chunks: view.chunks.push(chunk), staging: view.staging };
    assert forall|i: int| 0 <= i < after.chunks.len() implies (#[trigger] after.chunks[i]).len()
        <= limit by {
        if i < view.chunks.len() {
            assert(after.chunks[i] == view.chunks[i]);
        }
    }
}

} // verus!
