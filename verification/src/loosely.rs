//! Buffer with a loose adherence to the preferred chunk size.

use crate::chunked::{
    drains, ingests, keeps_tail, reservation_for, yields, Inner, WriteError,
};
use crate::iter::{DrainChunks, IntoChunks};
use crate::model::{lemma_flushed, lemma_written, BufferView};
use crate::storage::{range_bytes, MAX_REGION_LEN, MIN_VIEW_RESERVE};
use bytes::Bytes;
use vstd::prelude::*;
use vstd::slice::slice_subrange;
use vstd::string::StringSliceAdditionalSpecFns;

verus! {

/// A non-contiguous buffer for efficient serialization of data structures.
///
/// A `ChunkedBytes` container has a staging region to coalesce small byte
/// sequences of source data, and a queue of byte chunks split off the
/// staging region that can be incrementally consumed by an output API. Once
/// the number of bytes in the staging region reaches the configured chunk
/// size, the content of the region is split off to form a new chunk.
///
/// This variant of the container does not enforce an upper limit on the
/// size of contiguous chunks, being optimized for performance. A byte range
/// handed to `put_bytes` is queued as it is, however long. If the sizes of
/// the produced chunks need to be capped, use `strictly::ChunkedBytes`
/// instead.
#[derive(Debug)]
pub struct ChunkedBytes {
    inner: Inner,
}

impl View for ChunkedBytes {
    type V = BufferView;

    /// The bytes held, chunk by chunk.
    open spec fn view(&self) -> BufferView {
        self.engine()@
    }
}

impl Default for ChunkedBytes {
    fn default() -> (buf: ChunkedBytes)
        ensures
            buf.wf(),
            buf@ == BufferView::new(),
            buf.queue() == Seq::<Bytes>::empty(),
            buf.chunk_size_hint() == crate::chunked::DEFAULT_CHUNK_SIZE,
    {
        ChunkedBytes { inner: Inner::default() }
    }
}

impl ChunkedBytes {
    /// The engine that the buffer is built on.
    pub closed spec fn engine(&self) -> Inner {
        self.inner
    }

    /// The queued chunks themselves, oldest first.
    pub open spec fn queue(&self) -> Seq<Bytes> {
        self.engine().queue()
    }

    /// The configured chunk size.
    pub open spec fn spec_chunk_size_hint(&self) -> usize {
        self.engine().chunk_size()
    }

    /// The invariant of the buffer: no queued chunk is empty, and the
    /// staging region never rests at or above the chunk size.
    pub open spec fn wf(&self) -> bool {
        &&& self.engine().wf()
        &&& self@.staging.len() == 0 || self@.staging.len() < self.chunk_size_hint()
    }

    /// Whether a reservation that is made when the staging region is full
    /// splits the staged bytes off as a chunk: it does when one and a half
    /// times their number is more than the chunk size.
    pub open spec fn splits_when_full(&self) -> bool {
        reservation_for(self@.staging.len() as usize, self.chunk_size_hint()).flush
    }

    /// Whether the chunk size is one that the staging region can be asked
    /// to make room for.
    pub open spec fn writable(&self) -> bool {
        self.chunk_size_hint() + MIN_VIEW_RESERVE <= MAX_REGION_LEN
    }

    /// Creates a new `ChunkedBytes` container with the preferred chunk size
    /// set to a default value.
    pub fn new() -> (buf: ChunkedBytes)
        ensures
            buf.wf(),
            buf@ == BufferView::new(),
            buf.queue() == Seq::<Bytes>::empty(),
            buf.chunk_size_hint() == crate::chunked::DEFAULT_CHUNK_SIZE,
    {
        ChunkedBytes { inner: Inner::default() }
    }

    /// Creates a new `ChunkedBytes` container with the given chunk size to
    /// prefer.
    pub fn with_chunk_size_hint(chunk_size: usize) -> (buf: ChunkedBytes)
        ensures
            buf.wf(),
            buf@ == BufferView::new(),
            buf.queue() == Seq::<Bytes>::empty(),
            buf.chunk_size_hint() == chunk_size,
    {
        ChunkedBytes { inner: Inner::with_chunk_size(chunk_size) }
    }

    /// The fully detailed constructor for `ChunkedBytes`. The preferred
    /// chunk size is given in `chunk_size`, and an upper estimate of the
    /// number of chunks this container could be expected to have at any
    /// moment of time should be given in `chunking_capacity`. More chunks
    /// can still be held, but this may cause reallocations of internal data
    /// structures.
    pub fn with_profile(chunk_size: usize, chunking_capacity: usize) -> (buf: ChunkedBytes)
        ensures
            buf.wf(),
            buf@ == BufferView::new(),
            buf.queue() == Seq::<Bytes>::empty(),
            buf.chunk_size_hint() == chunk_size,
    {
        ChunkedBytes { inner: Inner::with_profile(chunk_size, chunking_capacity) }
    }

    /// Returns the size this `ChunkedBytes` container uses as the threshold
    /// for splitting off complete chunks.
    ///
    /// Note that the size of produced chunks may be larger or smaller than
    /// the configured value, due to the allocation strategy used internally
    /// and also depending on the pattern of usage.
    #[verifier::when_used_as_spec(spec_chunk_size_hint)]
    pub fn chunk_size_hint(&self) -> (size: usize)
        ensures
            size == self.chunk_size_hint(),
    {
        self.inner.chunk_size()
    }

    /// Returns true if the `ChunkedBytes` container has no complete chunks
    /// and the staging region is empty.
    pub fn is_empty(&self) -> (empty: bool)
        ensures
            empty == (self@.chunks.len() == 0 && self@.staging.len() == 0),
            self.wf() ==> empty == (self@.remaining() == 0),
    {
        self.inner.is_empty()
    }

    /// The number of bytes in the staging region.
    pub fn staging_len(&self) -> (len: usize)
        ensures
            len == self@.staging.len(),
    {
        self.inner.staging_len()
    }

    /// The number of bytes that the staging region can hold without
    /// reallocating. It is the allocator's to give; the staged bytes fit in
    /// any case.
    pub fn staging_capacity(&self) -> (capacity: usize)
        ensures
            capacity >= self@.staging.len(),
    {
        self.inner.staging_capacity()
    }

    /// Splits any bytes that are currently in the staging region into a new
    /// complete chunk. If the staging region is empty, this method does
    /// nothing.
    ///
    /// Most users should not need to call this method. It is called
    /// internally when needed by the methods that advance the writing
    /// position.
    pub fn flush(&mut self)
        requires
            old(self).wf(),
        ensures
            final(self).wf(),
            final(self)@ == old(self)@.flushed(),
            final(self)@.content() == old(self)@.content(),
            old(self).queue().is_prefix_of(final(self).queue()),
            final(self).chunk_size_hint() == old(self).chunk_size_hint(),
    {
        self.inner.flush()
    }

    /// Appends a `Bytes` slice to the container without copying the data.
    ///
    /// If `chunk` is empty, this method does nothing. Otherwise, if there
    /// are any bytes currently in the staging region, they are split to
    /// form a complete chunk. Next, the given slice is appended as the next
    /// chunk, whole and as the handle that it is.
    pub fn put_bytes(&mut self, chunk: Bytes)
        requires
            old(self).wf(),
        ensures
            final(self).wf(),
            final(self).chunk_size_hint() == old(self).chunk_size_hint(),
            ingests(old(self).engine(), final(self).engine(), chunk),
            final(self)@.content() == old(self)@.content() + range_bytes(chunk),
    {
        proof {
            lemma_flushed(self@);
        }
        self.inner.push_chunk(chunk);
    }

    /// Removes the complete chunks from the `ChunkedBytes` container and
    /// hands them out, oldest first. This does not include bytes in the
    /// staging region.
    ///
    /// The chunks are removed even if the returned value is dropped without
    /// being consumed until the end.
    pub fn drain_chunks(&mut self) -> (drained: DrainChunks)
        requires
            old(self).wf(),
        ensures
            final(self).wf(),
            drains(old(self).engine(), final(self).engine(), drained@),
    {
        self.inner.drain_chunks()
    }

    /// Consumes the `ChunkedBytes` container to hand out its chunks. If
    /// there are bytes in the staging region, they are yielded as the last
    /// chunk.
    pub fn into_chunks(self) -> (chunks: IntoChunks)
        requires
            self.wf(),
        ensures
            yields(self.engine(), chunks@),
    {
        self.inner.into_chunks()
    }

    /// The number of bytes that can be written to the staging region
    /// before it has to grow: `room_in` the capacity that the region
    /// reports. What the allocator gave decides it.
    pub fn remaining_mut(&self) -> (room: usize)
        ensures
            room + self@.staging.len() <= usize::MAX,
    {
        self.inner.remaining_mut()
    }

    /// The length of the writable view at the write cursor: the room that
    /// the staging region has for bytes that `advance_mut` commits, as
    /// `chunk_mut_with` finds it from the capacity that the region reports.
    /// A staging region that is full reserves room first, which splits the
    /// staged bytes off as a chunk if `splits_when_full` says so. The view
    /// is never empty, and it may be longer than the preferred chunk size.
    pub fn chunk_mut(&mut self) -> (len: usize)
        requires
            old(self).wf(),
            old(self).writable(),
        ensures
            len > 0,
            final(self).wf(),
            final(self)@ == old(self)@ || (old(self).splits_when_full()
                && final(self)@ == old(self)@.flushed()),
            final(self)@.content() == old(self)@.content(),
            old(self).queue().is_prefix_of(final(self).queue()),
            final(self).chunk_size_hint() == old(self).chunk_size_hint(),
    {
        let capacity = self.inner.staging_capacity();
        self.chunk_mut_with(capacity)
    }

    /// The length of the writable view of a buffer whose staging region
    /// reports a capacity of `capacity` bytes.
    ///
    /// A region with room is left as it is, and the view is the room that
    /// it has. A region that is full reserves room first, as
    /// `plan_reservation` plans it for that capacity: the staged bytes are
    /// split off as a chunk if the plan says so, and the view has room for
    /// what the plan asks for. The view is never empty.
    pub fn chunk_mut_with(&mut self, capacity: usize) -> (len: usize)
        requires
            old(self).wf(),
            old(self).writable(),
            capacity >= old(self)@.staging.len(),
        ensures
            len > 0,
            final(self).wf(),
            final(self)@ == if old(self)@.staging.len() == capacity && reservation_for(
                capacity,
                old(self).chunk_size_hint(),
            ).flush {
                old(self)@.flushed()
            } else {
                old(self)@
            },
            old(self)@.staging.len() < capacity ==> len == capacity - old(self)@.staging.len(),
            old(self)@.staging.len() == capacity ==> len >= reservation_for(
                capacity,
                old(self).chunk_size_hint(),
            ).additional,
            final(self)@.content() == old(self)@.content(),
            old(self).queue().is_prefix_of(final(self).queue()),
            final(self).chunk_size_hint() == old(self).chunk_size_hint(),
    {
        proof {
            lemma_flushed(self@);
        }
        let reported = if self.inner.staging_len() == capacity {
            self.inner.reserve_staging_with(capacity)
        } else {
            capacity
        };
        self.inner.chunk_mut_with(reported)
    }

    /// Commits `src` to the staging region: the bytes are appended at the
    /// write cursor and the cursor moves past them. Once the staging region
    /// holds as many bytes as the preferred chunk size or more, they are
    /// split off as a chunk.
    pub fn advance_mut(&mut self, src: &[u8])
        requires
            old(self).wf(),
            old(self)@.staging.len() + src@.len() <= MAX_REGION_LEN,
        ensures
            final(self).wf(),
            final(self)@ == if old(self)@.staging.len() + src@.len() < old(self).chunk_size_hint() {
                old(self)@.written(src@)
            } else {
                old(self)@.written(src@).flushed()
            },
            final(self)@.content() == old(self)@.content() + src@,
            old(self).queue().is_prefix_of(final(self).queue()),
            final(self).chunk_size_hint() == old(self).chunk_size_hint(),
    {
        self.inner.advance_mut(src);
        if self.inner.staging_len() >= self.inner.chunk_size() {
            self.inner.flush();
        }
    }

    /// Writes all of `src`: as often as needed, the writable view is asked
    /// for and as much of `src` as it has room for is committed. The bytes
    /// read back from the buffer are those that were there, followed by
    /// `src`; where chunks end depends on the room that the allocator gave.
    pub fn put_slice(&mut self, src: &[u8])
        requires
            old(self).wf(),
            old(self).writable(),
            old(self).chunk_size_hint() + src@.len() <= MAX_REGION_LEN,
        ensures
            final(self).wf(),
            final(self)@.content() == old(self)@.content() + src@,
            old(self).queue().is_prefix_of(final(self).queue()),
            final(self).chunk_size_hint() == old(self).chunk_size_hint(),
    {
        let mut off: usize = 0;
        assert(old(self)@.content() + src@.take(0) =~= old(self)@.content());
        while off < src.len()
            invariant
                self.wf(),
                self.writable(),
                off <= src@.len(),
                self.chunk_size_hint() + src@.len() <= MAX_REGION_LEN,
                self@.content() == old(self)@.content() + src@.take(off as int),
                old(self).queue().is_prefix_of(self.queue()),
                self.chunk_size_hint() == old(self).chunk_size_hint(),
            decreases src@.len() - off,
        {
            let ghost before = self@;
            let view = self.chunk_mut();
            let ghost reserved = self@;
            let rest = src.len() - off;
            let n = if view < rest {
                view
            } else {
                rest
            };
            let piece = slice_subrange(src, off, off + n);
            self.advance_mut(piece);
            proof {
                lemma_flushed(before);
                lemma_written(reserved, piece@);
                lemma_flushed(reserved.written(piece@));
                assert(src@.take(off as int) + piece@ =~= src@.take(off + n));
            }
            off = off + n;
        }
        assert(src@.take(off as int) =~= src@);
    }

    /// Writes the bytes of `s`, if the buffer can take them: an error is
    /// returned, and nothing written, where the chunk size or the length of
    /// `s` is more than a staging region can be asked to hold.
    pub fn write_str(&mut self, s: &str) -> (res: Result<(), WriteError>)
        requires
            old(self).wf(),
        ensures
            final(self).wf(),
            final(self).chunk_size_hint() == old(self).chunk_size_hint(),
            old(self).queue().is_prefix_of(final(self).queue()),
            res.is_ok() <==> old(self).writable() && old(self).chunk_size_hint()
                + s.spec_bytes().len() <= MAX_REGION_LEN,
            res.is_ok() ==> final(self)@.content() == old(self)@.content() + s.spec_bytes(),
            res.is_err() ==> final(self)@ == old(self)@ && final(self).queue() == old(self).queue(),
    {
        let bytes = s.as_bytes();
        let size = self.inner.chunk_size();
        if size <= MAX_REGION_LEN - MIN_VIEW_RESERVE && bytes.len() <= MAX_REGION_LEN - size {
            self.put_slice(bytes);
            Ok(())
        } else {
            Err(WriteError)
        }
    }

    /// The number of unread bytes: those of all the complete chunks and
    /// those in the staging region.
    pub fn remaining(&self) -> (len: usize)
        requires
            self@.remaining() <= usize::MAX,
        ensures
            len == self@.remaining(),
    {
        self.inner.remaining()
    }

    /// The number of unread bytes, or `limit` if there are more than that.
    /// This can be asked of any buffer, however much it holds.
    pub fn remaining_up_to(&self, limit: usize) -> (len: usize)
        ensures
            len == if self@.remaining() <= limit {
                self@.remaining()
            } else {
                limit as nat
            },
    {
        self.inner.remaining_up_to(limit)
    }

    /// Whether there is anything left to read.
    pub fn has_remaining(&self) -> (any: bool)
        ensures
            any == !(self@.chunks.len() == 0 && self@.staging.len() == 0),
            self.wf() ==> any == (self@.remaining() > 0),
    {
        !self.inner.is_empty()
    }

    /// Returns a slice of the bytes in the first extant complete chunk, or
    /// the bytes in the staging region if there are no unconsumed chunks.
    ///
    /// It is more efficient to use `chunks_vectored` to gather all the
    /// disjoint slices for vectored output.
    pub fn chunk(&self) -> (slice: &[u8])
        ensures
            slice@ == self@.front(),
            self.wf() ==> slice@ == self@.content().take(slice@.len() as int),
            self.wf() ==> (slice@.len() == 0 <==> self@.remaining() == 0),
    {
        self.inner.chunk()
    }

    /// Advances the reading position by `cnt`, dropping the `Bytes`
    /// references to any complete chunks that the position has been
    /// advanced past and then advancing the starting position of the first
    /// remaining chunk. If there are no complete chunks left, the reading
    /// position is advanced in the staging region, effectively removing the
    /// consumed bytes.
    pub fn advance(&mut self, cnt: usize)
        requires
            old(self).wf(),
            cnt <= old(self)@.remaining(),
        ensures
            final(self).wf(),
            final(self)@ == old(self)@.advanced(cnt as nat),
            final(self)@.content() == old(self)@.content().skip(cnt as int),
            final(self).chunk_size_hint() == old(self).chunk_size_hint(),
            keeps_tail(old(self).queue(), final(self).queue()),
    {
        proof {
            crate::model::lemma_advanced(self@, cnt as nat);
            lemma_advanced_staging(self@, cnt as nat);
        }
        let _ = self.inner.advance(cnt);
    }

    /// Fills `dst` sequentially with the slice views of the chunks, then
    /// the bytes in the staging region if any remain and there is another
    /// unfilled entry left in `dst`. Returns the number of entries filled.
    pub fn chunks_vectored<'a>(&'a self, dst: &mut [&'a [u8]]) -> (filled: usize)
        ensures
            final(dst)@.len() == old(dst)@.len(),
            filled == if old(dst)@.len() <= self@.slices().len() {
                old(dst)@.len()
            } else {
                self@.slices().len()
            },
            forall|i: int| 0 <= i < filled ==> (#[trigger] final(dst)@[i])@ == self@.slices()[i],
            forall|i: int|
                filled <= i < old(dst)@.len() ==> #[trigger] final(dst)@[i] == old(dst)@[i],
    {
        self.inner.chunks_vectored(dst)
    }

    /// Removes up to `len` unread bytes from the front and returns them as
    /// one contiguous range; fewer than `len` only when the buffer holds no
    /// more. Bytes are copied only where more than one source has to be
    /// joined.
    pub fn copy_to_bytes(&mut self, len: usize) -> (taken: Bytes)
        requires
            old(self).wf(),
            len <= MAX_REGION_LEN || old(self)@.remaining() <= MAX_REGION_LEN,
        ensures
            final(self).wf(),
            final(self).chunk_size_hint() == old(self).chunk_size_hint(),
            range_bytes(taken) == old(self)@.content().take(old(self)@.take_len(len as nat) as int),
            final(self)@ == old(self)@.advanced(old(self)@.take_len(len as nat)),
            final(self)@.content() == old(self)@.content().skip(
                old(self)@.take_len(len as nat) as int,
            ),
            old(self)@.front_meets(len as nat) ==> taken == old(self).queue()[0],
    {
        proof {
            let cnt = if len <= self@.remaining() {
                len as nat
            } else {
                self@.remaining()
            };
            lemma_advanced_staging(self@, cnt);
            crate::model::lemma_advanced(self@, cnt);
        }
        self.inner.copy_to_bytes(len)
    }

    /// Removes all unread bytes and returns them as one contiguous range.
    /// Nothing is copied where the buffer holds a single source.
    pub fn to_bytes(&mut self) -> (taken: Bytes)
        requires
            old(self).wf(),
            old(self)@.remaining() <= MAX_REGION_LEN,
        ensures
            final(self).wf(),
            final(self)@ == BufferView::new(),
            final(self).queue() == Seq::<Bytes>::empty(),
            final(self).chunk_size_hint() == old(self).chunk_size_hint(),
            range_bytes(taken) == old(self)@.content(),
            old(self).queue().len() == 1 && old(self)@.staging.len() == 0
                ==> taken == old(self).queue()[0],
    {
        self.inner.take_bytes()
    }
}

/// Advancing never adds to the staging region.
pub proof fn lemma_advanced_staging(view: BufferView, cnt: nat)
    requires
        cnt <= view.remaining(),
    ensures
        view.advanced(cnt).staging.len() <= view.staging.len(),
    decreases view.chunks.len(),
{
    if view.chunks.len() > 0 && cnt >= view.chunks[0].len() {
        crate::model::lemma_flatten_first(view.chunks);
        lemma_advanced_staging(
            BufferView { chunks: view.chunks.drop_first(), staging: view.staging },
            (cnt - view.chunks[0].len()) as nat,
        );
    }
}

} // verus!
