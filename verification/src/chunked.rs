//! The engine that both buffer variants are built on: a staging region for
//! the bytes being written and a queue of complete chunks.

use crate::iter::{DrainChunks, IntoChunks};
use crate::model::{
    lemma_advanced, lemma_advanced_zero, lemma_flatten_first, lemma_flatten_prefix,
    lemma_flushed, lemma_front, lemma_ingested, lemma_written, BufferView,
};
use crate::storage::{
    advance_range, advance_region, range_as_slice, range_bytes, region_as_slice, region_bytes,
    region_view_len, reserve_region, split_region_to_range, MAX_REGION_LEN, MIN_VIEW_RESERVE,
};
use bytes::{Bytes, BytesMut};
use std::collections::VecDeque;
use vstd::prelude::*;
use vstd::slice::slice_subrange;

verus! {

/// The chunk size of a buffer made without naming one.
pub const DEFAULT_CHUNK_SIZE: usize = 4096;

/// The bytes that each of the queued ranges holds.
pub open spec fn contents_of(queue: Seq<Bytes>) -> Seq<Seq<u8>> {
    queue.map_values(|range: Bytes| range_bytes(range))
}

/// What a reservation does before the staging region is asked for room.
#[derive(Clone, Copy, Debug, PartialEq, Eq, Structural)]
pub struct Reservation {
    /// Whether the staged bytes are first split off as a chunk.
    pub flush: bool,
    /// The number of bytes that the staging region is asked to make room
    /// for.
    pub additional: usize,
}

/// The rule by which a reservation is planned. With `capacity` the room
/// that the staging region has now, growing it in place is unlikely to be
/// possible once one and a half times that room is more than the chunk
/// size. In that case the staged bytes leave as a chunk, so that they need
/// not be copied, and room for a whole chunk is asked for. Otherwise the
/// region is asked for what it lacks to hold one chunk.
pub open spec fn reservation_for(capacity: usize, chunk_size: usize) -> Reservation {
    let sum = capacity + capacity / 2;
    let cutoff = if sum > usize::MAX {
        usize::MAX as int
    } else {
        sum
    };
    if cutoff > chunk_size {
        Reservation { flush: true, additional: chunk_size }
    } else {
        Reservation { flush: false, additional: (chunk_size - capacity) as usize }
    }
}

/// Plans a reservation for a staging region that has room for `capacity`
/// bytes, in a buffer with the given chunk size. No plan asks for more room
/// than one chunk takes.
pub fn plan_reservation(capacity: usize, chunk_size: usize) -> (plan: Reservation)
    ensures
        plan == reservation_for(capacity, chunk_size),
        plan.additional <= chunk_size,
        !plan.flush ==> capacity + plan.additional == chunk_size,
{
    let cutoff = capacity.saturating_add(capacity / 2);
    if cutoff > chunk_size {
        Reservation { flush: true, additional: chunk_size }
    } else {
        Reservation { flush: false, additional: chunk_size - capacity }
    }
}

/// The room for more bytes in a region that reports a capacity of
/// `capacity` bytes and holds `staged` of them.
pub fn room_in(capacity: usize, staged: usize) -> (room: usize)
    requires
        staged <= capacity,
    ensures
        room == capacity - staged,
{
    capacity - staged
}

/// The lesser of two numbers.
pub fn lesser_of(a: usize, b: usize) -> (lesser: usize)
    ensures
        lesser == if a < b {
            a
        } else {
            b
        },
{
    if a < b {
        a
    } else {
        b
    }
}

/// The error of a write that the buffer cannot take: together with what is
/// staged, the bytes would be more than one region is ever asked to hold.
#[derive(Clone, Copy, Debug, PartialEq, Eq, Structural)]
pub struct WriteError;

/// Where a call of `advance` stopped.
#[derive(Clone, Copy, Debug, PartialEq, Eq, Structural)]
pub enum AdvanceStopped {
    /// Inside a queued chunk, or at the start of one.
    InChunk,
    /// In the staging region, after consuming this many bytes of it.
    InStaging(usize),
}

/// Whether `post` is the engine that handing `chunk` over whole makes of
/// `pre`: an empty range changes nothing; any other is the newest chunk of
/// the queue, behind what was queued and what was staged.
pub open spec fn ingests(pre: Inner, post: Inner, chunk: Bytes) -> bool {
    if range_bytes(chunk).len() == 0 {
        post@ == pre@ && post.queue() == pre.queue()
    } else {
        &&& post@ == pre@.ingested(seq![range_bytes(chunk)])
        &&& post.queue().len() > 0
        &&& post.queue().last() == chunk
        &&& pre.queue().is_prefix_of(post.queue().drop_last())
    }
}

/// Whether the queue `post` is what is left of the queue `pre` after bytes
/// were consumed from its front: chunks have left at the front, the first
/// chunk that is left may have lost bytes, and the chunks behind it are the
/// handles that they were.
pub open spec fn keeps_tail(pre: Seq<Bytes>, post: Seq<Bytes>) -> bool {
    &&& post.len() <= pre.len()
    &&& forall|i: int| 1 <= i < post.len() ==> #[trigger] post[i] == pre[i + pre.len() - post.len()]
}

/// Whether `drained` are the chunks that a drain takes out of `pre`, and
/// `post` the engine that it leaves.
pub open spec fn drains(pre: Inner, post: Inner, drained: Seq<Bytes>) -> bool {
    &&& drained == pre.queue()
    &&& post.queue() == Seq::<Bytes>::empty()
    &&& post@ == pre@.drained()
    &&& post.chunk_size() == pre.chunk_size()
}

/// Whether `chunks` are the chunks that consuming `buf` hands out: the
/// queued chunks themselves, then the staged bytes, if there are any, as
/// the last chunk.
pub open spec fn yields(buf: Inner, chunks: Seq<Bytes>) -> bool {
    &&& buf.queue().is_prefix_of(chunks)
    &&& contents_of(chunks) == buf@.flushed().chunks
}

/// The state shared by the buffer variants: the staging region, the queue
/// of complete chunks, and the configured chunk size.
#[derive(Debug)]
pub struct Inner {
    staging: BytesMut,
    chunks: VecDeque<Bytes>,
    chunk_size: usize,
}

impl View for Inner {
    type V = BufferView;

    /// The bytes held, chunk by chunk.
    open spec fn view(&self) -> BufferView {
        BufferView { chunks: contents_of(self.queue()), staging: self.staging() }
    }
}

impl Default for Inner {
    fn default() -> (inner: Inner)
        ensures
            inner.wf(),
            inner@ == BufferView::new(),
            inner.queue() == Seq::<Bytes>::empty(),
            inner.chunk_size() == DEFAULT_CHUNK_SIZE,
    {
        let inner = Inner {
            staging: BytesMut::new(),
            chunks: VecDeque::new(),
            chunk_size: DEFAULT_CHUNK_SIZE,
        };
        assert(contents_of(inner.queue()) =~= Seq::empty());
        inner
    }
}

impl Inner {
    /// The queued chunks themselves, oldest first. Two equal handles stand
    /// for the same range of the same storage.
    pub closed spec fn queue(&self) -> Seq<Bytes> {
        self.chunks@
    }

    /// The bytes in the staging region.
    pub closed spec fn staging(&self) -> Seq<u8> {
        region_bytes(self.staging)
    }

    /// The configured chunk size.
    pub closed spec fn spec_chunk_size(&self) -> usize {
        self.chunk_size
    }

    /// The invariant of the engine: no queued chunk is empty.
    pub open spec fn wf(&self) -> bool {
        self@.well_formed()
    }

    /// Makes an empty engine with the given chunk size.
    pub fn with_chunk_size(chunk_size: usize) -> (inner: Inner)
        ensures
            inner.wf(),
            inner@ == BufferView::new(),
            inner.queue() == Seq::<Bytes>::empty(),
            inner.chunk_size() == chunk_size,
    {
        let inner = Inner { staging: BytesMut::new(), chunks: VecDeque::new(), chunk_size };
        assert(contents_of(inner.queue()) =~= Seq::empty());
        inner
    }

    /// Makes an empty engine with the given chunk size and a queue sized
    /// for `chunking_capacity` chunks.
    pub fn with_profile(chunk_size: usize, chunking_capacity: usize) -> (inner: Inner)
        ensures
            inner.wf(),
            inner@ == BufferView::new(),
            inner.queue() == Seq::<Bytes>::empty(),
            inner.chunk_size() == chunk_size,
    {
        let inner = Inner {
            staging: BytesMut::new(),
            chunks: VecDeque::with_capacity(chunking_capacity),
            chunk_size,
        };
        assert(contents_of(inner.queue()) =~= Seq::empty());
        inner
    }

    /// The configured chunk size.
    #[verifier::when_used_as_spec(spec_chunk_size)]
    pub fn chunk_size(&self) -> (size: usize)
        ensures
            size == self.chunk_size(),
    {
        self.chunk_size
    }

    /// Whether there is no queued chunk and no staged byte.
    pub fn is_empty(&self) -> (empty: bool)
        ensures
            empty == (self@.chunks.len() == 0 && self@.staging.len() == 0),
            self.wf() ==> empty == (self@.remaining() == 0),
    {
        proof {
            if self@.chunks.len() > 0 {
                lemma_flatten_first(self@.chunks);
            }
        }
        self.chunks.len() == 0 && self.staging.is_empty()
    }

    /// The number of bytes in the staging region.
    pub fn staging_len(&self) -> (len: usize)
        ensures
            len == self@.staging.len(),
    {
        self.staging.len()
    }

    /// The number of bytes that the staging region can hold without
    /// reallocating. What the allocator gave is not part of the buffer's
    /// contract; the staged bytes fit in any case.
    pub fn staging_capacity(&self) -> (capacity: usize)
        ensures
            capacity >= self@.staging.len(),
    {
        self.staging.capacity()
    }

    /// Hands a range over to the buffer without copying it. An empty range
    /// changes nothing. Any other becomes the newest chunk of the queue,
    /// whole and as the handle that it is; bytes that are staged are split
    /// off as a chunk first, so that what was written earlier is read
    /// earlier.
    pub fn push_chunk(&mut self, chunk: Bytes)
        requires
            old(self).wf(),
        ensures
            final(self).wf(),
            ingests(*old(self), *final(self), chunk),
            final(self)@.content() == old(self)@.content() + range_bytes(chunk),
            old(self).queue().is_prefix_of(final(self).queue()),
            final(self).chunk_size() == old(self).chunk_size(),
    {
        proof {
            lemma_ingested(self@, seq![range_bytes(chunk)]);
            seq![range_bytes(chunk)].lemma_flatten_singleton();
            if range_bytes(chunk).len() == 0 {
                assert(self@.content() + range_bytes(chunk) =~= self@.content());
            }
        }
        if !chunk.is_empty() {
            self.flush();
            let ghost flushed = self.queue();
            self.append(chunk);
            assert(self.queue().drop_last() =~= flushed);
            assert(self@.chunks =~= old(self)@.flushed().chunks + seq![range_bytes(chunk)]);
            assert(self@.staging =~= Seq::empty());
        }
    }

    /// Appends a chunk that is not empty to the queue and leaves the
    /// staging region as it is.
    fn append(&mut self, chunk: Bytes)
        requires
            range_bytes(chunk).len() > 0,
            old(self).wf(),
        ensures
            final(self).wf(),
            final(self).queue() == old(self).queue().push(chunk),
            final(self)@.chunks == old(self)@.chunks.push(range_bytes(chunk)),
            final(self)@.staging == old(self)@.staging,
            final(self).chunk_size() == old(self).chunk_size(),
    {
        self.chunks.push_back(chunk);
        assert(self@.chunks =~= old(self)@.chunks.push(range_bytes(chunk)));
        assert forall|i: int| 0 <= i < self@.chunks.len() implies (#[trigger] self@.chunks[i]).len()
            > 0 by {
            if i < old(self)@.chunks.len() {
                assert(self@.chunks[i] == old(self)@.chunks[i]);
            }
        }
    }

    /// Splits the staged bytes off as the newest chunk. Does nothing when
    /// the staging region is empty.
    pub fn flush(&mut self)
        requires
            old(self).wf(),
        ensures
            final(self).wf(),
            final(self)@ == old(self)@.flushed(),
            final(self)@.content() == old(self)@.content(),
            old(self).queue().is_prefix_of(final(self).queue()),
            final(self).chunk_size() == old(self).chunk_size(),
    {
        proof {
            lemma_flushed(self@);
        }
        if !self.staging.is_empty() {
            let bytes = self.staging.split().freeze();
            assert(self@.chunks == old(self)@.chunks);
            self.append(bytes);
        }
    }

    /// Removes all queued chunks and hands them out, oldest first. The
    /// staged bytes stay in the buffer.
    pub fn drain_chunks(&mut self) -> (drained: DrainChunks)
        requires
            old(self).wf(),
        ensures
            final(self).wf(),
            drains(*old(self), *final(self), drained@),
    {
        let mut taken = VecDeque::new();
        taken.append(&mut self.chunks);
        assert(contents_of(self.queue()) =~= Seq::empty());
        DrainChunks::new(taken)
    }

    /// Consumes the engine and hands out its chunks, oldest first. Staged
    /// bytes, if there are any, come last as a chunk of their own.
    pub fn into_chunks(self) -> (chunks: IntoChunks)
        requires
            self.wf(),
        ensures
            yields(self, chunks@),
    {
        let mut this = self;
        this.flush();
        IntoChunks::new(this.chunks)
    }

    /// Makes room in the staging region for the bytes of another chunk,
    /// as planned by `plan_reservation` from the capacity that the region
    /// reports, and returns the capacity that it reports afterwards.
    ///
    /// The bytes held and their order do not change. Whether the staged
    /// bytes are split off as a chunk depends on the capacity, which is the
    /// allocator's to give; they are split off in any case when one and a
    /// half times their own length is more than the chunk size. The
    /// capacity returned holds what is staged and the room that the plan
    /// asks for.
    pub fn reserve_staging(&mut self) -> (capacity: usize)
        requires
            old(self).wf(),
            old(self).chunk_size() <= MAX_REGION_LEN,
        ensures
            final(self).wf(),
            exists|reported: usize|
                reported >= old(self)@.staging.len() && capacity >= final(self)@.staging.len() + (
                #[trigger] reservation_for(reported, old(self).chunk_size())).additional
                    && final(self)@ == if reservation_for(reported, old(self).chunk_size()).flush {
                    old(self)@.flushed()
                } else {
                    old(self)@
                },
            old(self)@.staging.len() + old(self)@.staging.len() / 2 > old(self).chunk_size()
                ==> final(self)@ == old(self)@.flushed(),
            final(self)@.content() == old(self)@.content(),
            old(self).queue().is_prefix_of(final(self).queue()),
            final(self).chunk_size() == old(self).chunk_size(),
            capacity >= final(self)@.staging.len(),
    {
        let capacity = self.staging.capacity();
        self.reserve_staging_with(capacity)
    }

    /// The number of bytes that can be written to the staging region
    /// before it has to grow: `room_in` the capacity that the region
    /// reports. The capacity is the allocator's to decide.
    pub fn remaining_mut(&self) -> (room: usize)
        ensures
            room + self@.staging.len() <= usize::MAX,
    {
        room_in(self.staging.capacity(), self.staging.len())
    }

    /// Appends `src` to the staging region and moves the write cursor past
    /// it.
    pub fn advance_mut(&mut self, src: &[u8])
        requires
            old(self).wf(),
            old(self)@.staging.len() + src@.len() <= MAX_REGION_LEN,
        ensures
            final(self).wf(),
            final(self)@ == old(self)@.written(src@),
            final(self)@.content() == old(self)@.content() + src@,
            final(self).queue() == old(self).queue(),
            final(self).chunk_size() == old(self).chunk_size(),
    {
        proof {
            lemma_written(self@, src@);
        }
        self.staging.extend_from_slice(src);
        assert(self@.chunks == old(self)@.chunks);
    }

    /// The length of the writable view at the write cursor, as
    /// `chunk_mut_with` finds it from the capacity that the staging region
    /// reports. The view is never empty: a staging region without room
    /// grows first.
    pub fn chunk_mut(&mut self) -> (len: usize)
        requires
            old(self).wf(),
            old(self)@.staging.len() + MIN_VIEW_RESERVE <= MAX_REGION_LEN,
        ensures
            len > 0,
            final(self).wf(),
            final(self)@ == old(self)@,
            final(self).queue() == old(self).queue(),
            final(self).chunk_size() == old(self).chunk_size(),
    {
        let capacity = self.staging.capacity();
        self.chunk_mut_with(capacity)
    }

    /// The length of the writable view of a staging region that reports a
    /// capacity of `capacity` bytes: the room that it has. A region without
    /// room grows first, by as much as it sees fit, so the view is never
    /// empty. What the buffer holds does not change.
    pub fn chunk_mut_with(&mut self, capacity: usize) -> (len: usize)
        requires
            old(self).wf(),
            old(self)@.staging.len() + MIN_VIEW_RESERVE <= MAX_REGION_LEN,
            capacity >= old(self)@.staging.len(),
        ensures
            len > 0,
            capacity > old(self)@.staging.len() ==> len == capacity - old(self)@.staging.len(),
            final(self).wf(),
            final(self)@ == old(self)@,
            final(self).queue() == old(self).queue(),
            final(self).chunk_size() == old(self).chunk_size(),
    {
        let room = room_in(capacity, self.staging.len());
        if room > 0 {
            room
        } else {
            region_view_len(&mut self.staging)
        }
    }

    /// Makes room in the staging region for the bytes of another chunk, as
    /// `plan_reservation` plans it for a region that reports `capacity`,
    /// and returns the capacity that the region reports afterwards.
    ///
    /// The staged bytes are split off as a chunk exactly where the plan
    /// says so; nothing else changes in what the buffer holds. The
    /// capacity returned holds what is staged and the room that the plan
    /// asks for. For a region that was full, that is a whole chunk, and
    /// under a chunk size of two or more there is room to write.
    pub fn reserve_staging_with(&mut self, capacity: usize) -> (reported: usize)
        requires
            old(self).wf(),
            old(self).chunk_size() <= MAX_REGION_LEN,
            capacity >= old(self)@.staging.len(),
        ensures
            final(self).wf(),
            final(self)@ == if reservation_for(capacity, old(self).chunk_size()).flush {
                old(self)@.flushed()
            } else {
                old(self)@
            },
            final(self)@.content() == old(self)@.content(),
            old(self).queue().is_prefix_of(final(self).queue()),
            final(self).chunk_size() == old(self).chunk_size(),
            reported >= final(self)@.staging.len() + reservation_for(
                capacity,
                old(self).chunk_size(),
            ).additional,
            capacity == old(self)@.staging.len() ==> reported >= old(self).chunk_size(),
            capacity == old(self)@.staging.len() && old(self).chunk_size() >= 2 ==> reported
                > final(self)@.staging.len(),
    {
        let plan = plan_reservation(capacity, self.chunk_size);
        if plan.flush {
            self.flush();
        }
        let reported = reserve_region(&mut self.staging, plan.additional);
        assert(self@.chunks == contents_of(self.queue()));
        reported
    }

    /// The number of unread bytes: those of all the chunks and those in the
    /// staging region.
    pub fn remaining(&self) -> (len: usize)
        requires
            self@.remaining() <= usize::MAX,
        ensures
            len == self@.remaining(),
    {
        let mut sum = self.staging.len();
        let mut i: usize = 0;
        while i < self.chunks.len()
            invariant
                0 <= i <= self.chunks@.len(),
                sum == self@.staging.len() + self@.chunks.take(i as int).flatten().len(),
                self@.remaining() <= usize::MAX,
            decreases self.chunks@.len() - i,
        {
            proof {
                lemma_flatten_prefix(self@.chunks, i as int);
            }
            sum = sum + self.chunks[i].len();
            i = i + 1;
        }
        assert(self@.chunks.take(i as int) =~= self@.chunks);
        sum
    }

    /// The first unread contiguous slice: the bytes of the oldest chunk,
    /// or the staged bytes when no chunk is queued.
    pub fn chunk(&self) -> (slice: &[u8])
        ensures
            slice@ == self@.front(),
            self.wf() ==> slice@ == self@.content().take(slice@.len() as int),
            self.wf() ==> (slice@.len() == 0 <==> self@.remaining() == 0),
    {
        proof {
            if self.wf() {
                lemma_front(self@);
            }
        }
        if self.chunks.len() > 0 {
            range_as_slice(&self.chunks[0])
        } else {
            region_as_slice(&self.staging)
        }
    }

    /// Consumes `cnt` bytes from the front. Chunks that are consumed whole
    /// are released; the chunk in which the count ends is advanced; once no
    /// chunk is left, the rest of the count is consumed from the staging
    /// region. The result tells where the count ended.
    pub fn advance(&mut self, cnt: usize) -> (stopped: AdvanceStopped)
        requires
            old(self).wf(),
            cnt <= old(self)@.remaining(),
        ensures
            final(self).wf(),
            final(self)@ == old(self)@.advanced(cnt as nat),
            final(self)@.content() == old(self)@.content().skip(cnt as int),
            final(self).chunk_size() == old(self).chunk_size(),
            match stopped {
                AdvanceStopped::InChunk => cnt < old(self)@.queued().len(),
                AdvanceStopped::InStaging(adv) => cnt >= old(self)@.queued().len() && adv == cnt
                    - old(self)@.queued().len(),
            },
            keeps_tail(old(self).queue(), final(self).queue()),
    {
        let ghost before = self@;
        proof {
            lemma_advanced(before, cnt as nat);
        }
        let mut left = cnt;
        loop
            invariant
                self.wf(),
                left <= cnt,
                left <= self@.remaining(),
                self@.advanced(left as nat) == before.advanced(cnt as nat),
                before.advanced(cnt as nat).content() == before.content().skip(cnt as int),
                cnt - left == before.queued().len() - self@.queued().len(),
                self.chunk_size() == old(self).chunk_size(),
                before == old(self)@,
                self.queue().len() <= old(self).queue().len(),
                self.queue() =~= old(self).queue().skip(
                    old(self).queue().len() - self.queue().len(),
                ),
            decreases self.queue().len(),
        {
            let ghost view = self@;
            let ghost queue = self.queue();
            match self.chunks.pop_front() {
                None => {
                    assert(view.chunks =~= Seq::empty());
                    advance_region(&mut self.staging, left);
                    assert(contents_of(self.queue()) =~= view.advanced(left as nat).chunks);
                    return AdvanceStopped::InStaging(left);
                },
                Some(chunk) => {
                    proof {
                        lemma_flatten_first(view.chunks);
                    }
                    assert(contents_of(self.queue()) =~= view.chunks.drop_first());
                    let len = chunk.len();
                    if left < len {
                        let mut chunk = chunk;
                        advance_range(&mut chunk, left);
                        self.chunks.push_front(chunk);
                        assert(contents_of(self.queue()) =~= view.advanced(left as nat).chunks);
                        assert(self.queue().len() == queue.len());
                        return AdvanceStopped::InChunk;
                    } else {
                        left = left - len;
                    }
                },
            }
        }
    }

    /// Fills `dst` with the unread slices in reading order: one for each
    /// queued chunk, then one for the staged bytes if there are any, as far
    /// as `dst` has entries for them. Returns the number of entries filled;
    /// the entries behind them are left as they were.
    pub fn chunks_vectored<'a>(&'a self, dst: &mut [&'a [u8]]) -> (filled: usize)
        ensures
            final(dst)@.len() == old(dst)@.len(),
            filled == if old(dst)@.len() <= self@.slices().len() {
                old(dst)@.len()
            } else {
                self@.slices().len()
            },
            forall|i: int| 0 <= i < filled ==> (#[trigger] final(dst)@[i])@ == self@.slices()[i],
            forall|i: int|
                filled <= i < old(dst)@.len() ==> #[trigger] final(dst)@[i] == old(dst)@[i],
    {
        let mut n: usize = 0;
        while n < dst.len() && n < self.chunks.len()
            invariant
                n <= dst@.len(),
                n <= self.chunks@.len(),
                dst@.len() == old(dst)@.len(),
                forall|i: int| 0 <= i < n ==> (#[trigger] dst@[i])@ == self@.chunks[i],
                forall|i: int| n <= i < dst@.len() ==> #[trigger] dst@[i] == old(dst)@[i],
            decreases dst@.len() - n,
        {
            dst[n] = range_as_slice(&self.chunks[n]);
            n = n + 1;
        }
        if n < dst.len() && !self.staging.is_empty() {
            dst[n] = region_as_slice(&self.staging);
            n + 1
        } else {
            n
        }
    }
    /// The number of unread bytes, or `limit` if there are more than that.
    /// Unlike `remaining`, this never adds up more than it reports, so it
    /// can be asked of any buffer.
    pub fn remaining_up_to(&self, limit: usize) -> (len: usize)
        ensures
            len == if self@.remaining() <= limit {
                self@.remaining()
            } else {
                limit as nat
            },
    {
        let staged = self.staging.len();
        if staged >= limit {
            return limit;
        }
        let mut sum = staged;
        let mut i: usize = 0;
        while i < self.chunks.len()
            invariant
                0 <= i <= self.chunks@.len(),
                sum < limit,
                sum == self@.staging.len() + self@.chunks.take(i as int).flatten().len(),
            decreases self.chunks@.len() - i,
        {
            proof {
                lemma_flatten_prefix(self@.chunks, i as int);
            }
            let len = self.chunks[i].len();
            if len >= limit - sum {
                return limit;
            }
            sum = sum + len;
            i = i + 1;
        }
        assert(self@.chunks.take(i as int) =~= self@.chunks);
        sum
    }

    /// Removes up to `len` unread bytes from the front and returns them as
    /// one contiguous range; fewer than `len` only when the buffer holds no
    /// more. The buffer is left as `advance` by that many bytes leaves it.
    ///
    /// Bytes are copied only where more than one source has to be joined.
    /// With no chunk queued the range is split off the staging region; a
    /// first chunk that holds all that is asked for gives up its head; a
    /// chunk that is asked for whole is handed out itself.
    pub fn copy_to_bytes(&mut self, len: usize) -> (taken: Bytes)
        requires
            old(self).wf(),
            len <= MAX_REGION_LEN || old(self)@.remaining() <= MAX_REGION_LEN,
        ensures
            final(self).wf(),
            final(self).chunk_size() == old(self).chunk_size(),
            range_bytes(taken) == old(self)@.content().take(old(self)@.take_len(len as nat) as int),
            final(self)@ == old(self)@.advanced(old(self)@.take_len(len as nat)),
            final(self)@.content() == old(self)@.content().skip(
                old(self)@.take_len(len as nat) as int,
            ),
            old(self)@.front_meets(len as nat) ==> taken == old(self).queue()[0],
    {
        let ghost before = self@;
        let total = self.remaining_up_to(len);
        proof {
            lemma_advanced(before, total as nat);
            assert(before.content().take(before.remaining() as int) =~= before.content());
        }
        if self.chunks.len() == 0 {
            assert(before.chunks =~= Seq::empty());
            assert(before.content() =~= before.staging);
            let taken = split_region_to_range(&mut self.staging, total);
            assert(self@.chunks == before.chunks);
            return taken;
        }
        proof {
            lemma_flatten_first(before.chunks);
        }
        let first_len = self.chunks[0].len();
        assert(before.chunks[0] == range_bytes(old(self).queue()[0]));
        if total <= first_len {
            let mut chunk = self.chunks.pop_front().unwrap();
            assert(contents_of(self.queue()) =~= before.chunks.drop_first());
            if total < first_len {
                let head = chunk.split_to(total);
                self.chunks.push_front(chunk);
                assert(self@.chunks =~= before.advanced(total as nat).chunks);
                assert(range_bytes(head) =~= before.content().take(total as int));
                return head;
            } else {
                proof {
                    lemma_advanced_zero(self@);
                    if before.chunks.len() == 1 && before.staging.len() == 0 {
                        assert(before.chunks.drop_first() =~= Seq::empty());
                        assert(before.chunks.drop_first().flatten() =~= Seq::empty());
                    }
                }
                assert(range_bytes(chunk) =~= before.content().take(total as int));
                return chunk;
            }
        }
        proof {
            if before.chunks.len() == 1 {
                assert(before.chunks.drop_first() =~= Seq::empty());
            }
        }
        let mut buf = BytesMut::with_capacity(total);
        let mut left = total;
        assert(region_bytes(buf) + before.content().take(total as int) =~= before.content().take(
            total as int,
        ));
        loop
            invariant
                self.wf(),
                total > before.chunks[0].len(),
                before == old(self)@,
                before.chunks.len() > 0,
                before.chunks[0] == range_bytes(old(self).queue()[0]),
                before.chunks.len() == old(self).queue().len(),
                before.remaining() >= before.chunks[0].len(),
                before.chunks.len() == 1 && before.staging.len() == 0 ==> before.remaining()
                    == before.chunks[0].len(),
                total == if len <= before.remaining() {
                    len as nat
                } else {
                    before.remaining()
                },
                before.content().take(before.remaining() as int) == before.content(),
                before.advanced(total as nat).content() == before.content().skip(total as int),
                before.advanced(total as nat).remaining() == before.remaining() - total,
                left <= total <= MAX_REGION_LEN,
                left <= self@.remaining(),
                region_bytes(buf).len() + left == total,
                region_bytes(buf) + self@.content().take(left as int) =~= before.content().take(
                    total as int,
                ),
                self@.advanced(left as nat) == before.advanced(total as nat),
                self.chunk_size() == old(self).chunk_size(),
            decreases self.queue().len(),
        {
            let ghost view = self@;
            let ghost copied = region_bytes(buf);
            match self.chunks.pop_front() {
                None => {
                    assert(view.chunks =~= Seq::empty());
                    assert(view.content() =~= view.staging);
                    let staged = region_as_slice(&self.staging);
                    buf.extend_from_slice(slice_subrange(staged, 0, left));
                    advance_region(&mut self.staging, left);
                    assert(self@.chunks == view.chunks);
                    assert(self@ == view.advanced(left as nat));
                    assert(region_bytes(buf) =~= before.content().take(total as int));
                    return buf.freeze();
                },
                Some(chunk) => {
                    proof {
                        lemma_flatten_first(view.chunks);
                    }
                    assert(contents_of(self.queue()) =~= view.chunks.drop_first());
                    let chunk_len = chunk.len();
                    if chunk_len > left {
                        let mut chunk = chunk;
                        let head = chunk.split_to(left);
                        buf.extend_from_slice(range_as_slice(&head));
                        self.chunks.push_front(chunk);
                        assert(self@.chunks =~= view.advanced(left as nat).chunks);
                        assert(self@ == view.advanced(left as nat));
                        assert(region_bytes(buf) =~= before.content().take(total as int));
                        return buf.freeze();
                    } else {
                        buf.extend_from_slice(range_as_slice(&chunk));
                        left = left - chunk_len;
                        assert(region_bytes(buf) + self@.content().take(left as int)
                            =~= copied + view.content().take(left + chunk_len));
                    }
                },
            }
        }
    }

    /// Removes all unread bytes and returns them as one contiguous range.
    /// Nothing is copied where the buffer holds a single source: the
    /// staged bytes alone, or one chunk and no staged byte, in which case
    /// that chunk itself is handed out.
    pub fn take_bytes(&mut self) -> (taken: Bytes)
        requires
            old(self).wf(),
            old(self)@.remaining() <= MAX_REGION_LEN,
        ensures
            final(self).wf(),
            final(self)@ == BufferView::new(),
            final(self).queue() == Seq::<Bytes>::empty(),
            final(self).chunk_size() == old(self).chunk_size(),
            range_bytes(taken) == old(self)@.content(),
            old(self).queue().len() == 1 && old(self)@.staging.len() == 0
                ==> taken == old(self).queue()[0],
    {
        let ghost before = self@;
        match self.chunks.pop_front() {
            None => {
                assert(before.chunks =~= Seq::empty());
                assert(before.content() =~= before.staging);
                let taken = self.staging.split().freeze();
                assert(self@.chunks == before.chunks);
                taken
            },
            Some(chunk) => {
                proof {
                    lemma_flatten_first(before.chunks);
                }
                assert(contents_of(self.queue()) =~= before.chunks.drop_first());
                if self.is_empty() {
                    assert(self@.chunks =~= Seq::empty());
                    assert(before.content() =~= range_bytes(chunk));
                    return chunk;
                }
                let rest = self.remaining_up_to(MAX_REGION_LEN);
                let mut buf = BytesMut::with_capacity(chunk.len() + rest);
                buf.extend_from_slice(range_as_slice(&chunk));
                loop
                    invariant
                        self.wf(),
                        before == old(self)@,
                        !(old(self).queue().len() == 1 && old(self)@.staging.len() == 0),
                        region_bytes(buf) + self@.content() =~= before.content(),
                        before.remaining() <= MAX_REGION_LEN,
                        self.chunk_size() == old(self).chunk_size(),
                    decreases self.queue().len(),
                {
                    let ghost view = self@;
                    let ghost copied = region_bytes(buf);
                    match self.chunks.pop_front() {
                        None => {
                            assert(view.chunks =~= Seq::empty());
                            assert(view.content() =~= view.staging);
                            let staged = self.staging.split();
                            assert(self@.chunks == view.chunks);
                            buf.extend_from_slice(region_as_slice(&staged));
                            assert(self@.chunks == view.chunks);
                            assert(region_bytes(buf) =~= before.content());
                            return buf.freeze();
                        },
                        Some(next) => {
                            proof {
                                lemma_flatten_first(view.chunks);
                            }
                            assert(contents_of(self.queue()) =~= view.chunks.drop_first());
                            buf.extend_from_slice(range_as_slice(&next));
                            assert(region_bytes(buf) + self@.content() =~= copied
                                + view.content());
                        },
                    }
                }
            },
        }
    }
}

} // verus!
