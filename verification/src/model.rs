//! The mathematical picture of a buffer.
//!
//! A buffer is a queue of chunks, oldest first, followed by the bytes of the
//! staging region. Reading consumes the concatenation of all of them from
//! the front; writing appends to the staging region at the back. The
//! contracts of the executable buffers are stated over the functions
//! defined here, and the lemmas below show what those functions do to the
//! bytes that a reader will see.

use vstd::prelude::*;

verus! {

/// What a buffer holds: the bytes of each queued chunk, oldest first, and
/// the bytes of the staging region.
pub struct BufferView {
    pub chunks: Seq<Seq<u8>>,
    pub staging: Seq<u8>,
}

impl BufferView {
    /// The buffer that holds nothing.
    pub open spec fn new() -> BufferView {
        BufferView { chunks: Seq::empty(), staging: Seq::empty() }
    }

    /// The bytes of the queued chunks, in reading order.
    pub open spec fn queued(self) -> Seq<u8> {
        self.chunks.flatten()
    }

    /// All unread bytes in reading order: the chunks, then the staging
    /// region.
    pub open spec fn content(self) -> Seq<u8> {
        self.chunks.flatten() + self.staging
    }

    /// The number of unread bytes.
    pub open spec fn remaining(self) -> nat {
        self.content().len()
    }

    /// No empty chunk is ever queued.
    pub open spec fn well_formed(self) -> bool {
        forall|i: int| 0 <= i < self.chunks.len() ==> (#[trigger] self.chunks[i]).len() > 0
    }

    /// No queued chunk is longer than `limit`, and neither is the staging
    /// region.
    pub open spec fn bounded(self, limit: nat) -> bool {
        &&& self.staging.len() <= limit
        &&& forall|i: int| 0 <= i < self.chunks.len() ==> (#[trigger] self.chunks[i]).len() <= limit
    }

    /// The buffer after `src` is appended to the staging region.
    pub open spec fn written(self, src: Seq<u8>) -> BufferView {
        BufferView { chunks: self.chunks, staging: self.staging + src }
    }

    /// The buffer after the staging bytes, if there are any, have become the
    /// newest chunk.
    pub open spec fn flushed(self) -> BufferView {
        if self.staging.len() == 0 {
            self
        } else {
            BufferView { chunks: self.chunks.push(self.staging), staging: Seq::empty() }
        }
    }

    /// The buffer after the pieces of `pieces` are queued behind everything
    /// written so far.
    pub open spec fn ingested(self, pieces: Seq<Seq<u8>>) -> BufferView {
        if pieces.len() == 0 {
            self
        } else {
            BufferView { chunks: self.flushed().chunks + pieces, staging: Seq::empty() }
        }
    }

    /// The buffer after `cnt` bytes are consumed from the front. Chunks that
    /// are consumed whole leave the queue; a chunk in which the count ends
    /// loses its first bytes; what is left of the count after the last
    /// chunk is consumed from the staging region.
    pub open spec fn advanced(self, cnt: nat) -> BufferView
        decreases self.chunks.len(),
    {
        if self.chunks.len() == 0 {
            BufferView { chunks: self.chunks, staging: self.staging.skip(cnt as int) }
        } else if cnt < self.chunks[0].len() {
            BufferView {
                chunks: self.chunks.update(0, self.chunks[0].skip(cnt as int)),
                staging: self.staging,
            }
        } else {
            BufferView { chunks: self.chunks.drop_first(), staging: self.staging }.advanced(
                (cnt - self.chunks[0].len()) as nat,
            )
        }
    }

    /// The number of bytes that a request for `len` bytes gets: all that
    /// it asks for, or all that there is.
    pub open spec fn take_len(self, len: nat) -> nat {
        if len <= self.remaining() {
            len
        } else {
            self.remaining()
        }
    }

    /// Whether a request for `len` bytes is met by the oldest chunk as it
    /// is: the chunk is exactly as long, or it is all that the buffer holds
    /// and more is asked for.
    pub open spec fn front_meets(self, len: nat) -> bool {
        self.chunks.len() > 0 && (self.chunks[0].len() == len || (len > self.remaining()
            && self.chunks.len() == 1 && self.staging.len() == 0))
    }

    /// The first contiguous slice that a reader sees: the oldest chunk, or
    /// the staging bytes when no chunk is queued.
    pub open spec fn front(self) -> Seq<u8> {
        if self.chunks.len() > 0 {
            self.chunks[0]
        } else {
            self.staging
        }
    }

    /// All the slices that a gathering reader sees: the chunks in order,
    /// then the staging bytes if there are any.
    pub open spec fn slices(self) -> Seq<Seq<u8>> {
        if self.staging.len() > 0 {
            self.chunks.push(self.staging)
        } else {
            self.chunks
        }
    }

    /// The buffer after all queued chunks are removed.
    pub open spec fn drained(self) -> BufferView {
        BufferView { chunks: Seq::empty(), staging: self.staging }
    }
}

/// The pieces into which a range is cut so that none is longer than
/// `limit`: every piece but the last is exactly `limit` long, and the last
/// one holds what is left, at least one byte of it. An empty range has no
/// pieces.
pub open spec fn split_pieces(src: Seq<u8>, limit: nat) -> Seq<Seq<u8>>
    decreases src.len(),
{
    if src.len() == 0 {
        Seq::empty()
    } else if limit == 0 || src.len() <= limit {
        seq![src]
    } else {
        seq![src.take(limit as int)] + split_pieces(src.skip(limit as int), limit)
    }
}

/// A queue of chunks reads as its first chunk followed by the rest.
pub proof fn lemma_flatten_first(chunks: Seq<Seq<u8>>)
    requires
        chunks.len() > 0,
    ensures
        chunks.flatten() == chunks[0] + chunks.drop_first().flatten(),
{
}

/// The first `i + 1` chunks read as the first `i` chunks followed by chunk
/// `i`, and no prefix of the queue reads longer than the whole queue.
pub proof fn lemma_flatten_prefix(chunks: Seq<Seq<u8>>, i: int)
    requires
        0 <= i < chunks.len(),
    ensures
        chunks.take(i + 1).flatten() == chunks.take(i).flatten() + chunks[i],
        chunks.take(i + 1).flatten().len() <= chunks.flatten().len(),
{
    assert(chunks.take(i + 1) =~= chunks.take(i).push(chunks[i]));
    chunks.take(i).lemma_flatten_push(chunks[i]);
    assert(chunks =~= chunks.take(i + 1) + chunks.skip(i + 1));
    vstd::seq_lib::lemma_flatten_concat(chunks.take(i + 1), chunks.skip(i + 1));
}

/// Flushing moves bytes from the staging region to the queue and changes
/// neither the bytes that a reader will see nor their order.
pub proof fn lemma_flushed(view: BufferView)
    ensures
        view.flushed().content() == view.content(),
        view.flushed().staging.len() == 0,
        view.well_formed() ==> view.flushed().well_formed(),
        forall|limit: nat| view.bounded(limit) ==> #[trigger] view.flushed().bounded(limit),
{
    if view.staging.len() > 0 {
        view.chunks.lemma_flatten_push(view.staging);
        assert(view.flushed().content() =~= view.content());
    }
}

/// Writing appends to the bytes that a reader will see.
pub proof fn lemma_written(view: BufferView, src: Seq<u8>)
    ensures
        view.written(src).content() == view.content() + src,
        view.well_formed() ==> view.written(src).well_formed(),
{
    assert(view.written(src).content() =~= view.content() + src);
}

/// Queueing pieces behind the buffer appends their bytes, in order, to the
/// bytes that a reader will see.
pub proof fn lemma_ingested(view: BufferView, pieces: Seq<Seq<u8>>)
    ensures
        view.ingested(pieces).content() == view.content() + pieces.flatten(),
        view.well_formed() && (forall|i: int|
            0 <= i < pieces.len() ==> (#[trigger] pieces[i]).len() > 0)
            ==> view.ingested(pieces).well_formed(),
{
    lemma_flushed(view);
    if pieces.len() > 0 {
        vstd::seq_lib::lemma_flatten_concat(view.flushed().chunks, pieces);
        assert(view.ingested(pieces).content() =~= view.content() + pieces.flatten());
    } else {
        assert(view.content() + pieces.flatten() =~= view.content());
    }
}

/// Advancing consumes exactly the first `cnt` bytes that a reader sees and
/// leaves the others in their order.
pub proof fn lemma_advanced(view: BufferView, cnt: nat)
    requires
        cnt <= view.remaining(),
    ensures
        view.advanced(cnt).content() == view.content().skip(cnt as int),
        view.advanced(cnt).remaining() == view.remaining() - cnt,
        view.well_formed() ==> view.advanced(cnt).well_formed(),
        forall|limit: nat| view.bounded(limit) ==> #[trigger] view.advanced(cnt).bounded(limit),
        cnt >= view.queued().len() ==> view.advanced(cnt) == (BufferView {
            chunks: Seq::empty(),
            staging: view.staging.skip(cnt - view.queued().len()),
        }),
        cnt < view.queued().len() ==> view.advanced(cnt).staging == view.staging
            && view.advanced(cnt).chunks.len() > 0,
    decreases view.chunks.len(),
{
    if view.chunks.len() == 0 {
        assert(view.advanced(cnt).content() =~= view.content().skip(cnt as int));
        assert(view.chunks =~= Seq::empty());
    } else {
        let first = view.chunks[0];
        let rest = view.chunks.drop_first();
        lemma_flatten_first(view.chunks);
        if cnt < first.len() {
            let after = view.chunks.update(0, first.skip(cnt as int));
            lemma_flatten_first(after);
            assert(after.drop_first() =~= rest);
            assert(view.advanced(cnt).content() =~= view.content().skip(cnt as int));
        } else {
            let tail = BufferView { chunks: rest, staging: view.staging };
            let left = (cnt - first.len()) as nat;
            lemma_advanced(tail, left);
            assert(tail.content().skip(left as int) =~= view.content().skip(cnt as int));
            assert forall|limit: nat| view.bounded(limit) implies #[trigger] view.advanced(
                cnt,
            ).bounded(limit) by {
                assert(tail.bounded(limit));
            }
        }
    }
}

/// Advancing by nothing changes nothing.
pub proof fn lemma_advanced_zero(view: BufferView)
    requires
        view.well_formed(),
    ensures
        view.advanced(0) == view,
{
    if view.chunks.len() == 0 {
        assert(view.staging.skip(0) =~= view.staging);
    } else {
        assert(view.chunks[0].skip(0) =~= view.chunks[0]);
        assert(view.chunks.update(0, view.chunks[0]) =~= view.chunks);
    }
}

/// The slice at the front of the buffer holds the first unread bytes, and
/// it is empty only when nothing is left to read.
pub proof fn lemma_front(view: BufferView)
    requires
        view.well_formed(),
    ensures
        view.front().len() <= view.remaining(),
        view.front() == view.content().take(view.front().len() as int),
        view.front().len() == 0 <==> view.remaining() == 0,
{
    if view.chunks.len() > 0 {
        lemma_flatten_first(view.chunks);
        assert(view.front() =~= view.content().take(view.front().len() as int));
    } else {
        assert(view.front() =~= view.content().take(view.front().len() as int));
    }
}

/// The gathered slices, read one after another, are all the unread bytes;
/// none of them is empty.
pub proof fn lemma_slices(view: BufferView)
    ensures
        view.slices().flatten() == view.content(),
        view.well_formed() ==> forall|i: int|
            0 <= i < view.slices().len() ==> (#[trigger] view.slices()[i]).len() > 0,
{
    if view.staging.len() > 0 {
        view.chunks.lemma_flatten_push(view.staging);
    } else {
        assert(view.content() =~= view.chunks.flatten());
    }
}

/// Draining removes the queued chunks and nothing else; a buffer that was
/// just drained has no chunk left to drain.
pub proof fn lemma_drained(view: BufferView)
    ensures
        view.drained().chunks.len() == 0,
        view.drained().content() == view.staging,
        view.drained().drained() == view.drained(),
{
    assert(view.drained().content() =~= view.staging);
}

/// Cutting a range into pieces loses nothing: the pieces, read one after
/// another, are the range. No piece is empty, no piece is longer than the
/// limit, and every piece but the last is exactly as long as the limit.
pub proof fn lemma_split_pieces(src: Seq<u8>, limit: nat)
    requires
        limit > 0,
    ensures
        split_pieces(src, limit).flatten() == src,
        forall|i: int|
            0 <= i < split_pieces(src, limit).len() ==> 0 < (#[trigger] split_pieces(
                src,
                limit,
            )[i]).len() <= limit,
        forall|i: int|
            0 <= i < split_pieces(src, limit).len() - 1 ==> (#[trigger] split_pieces(
                src,
                limit,
            )[i]).len() == limit,
        src.len() > 0 ==> split_pieces(src, limit).len() == (src.len() + limit - 1) / (
        limit as int),
        src.len() == 0 ==> split_pieces(src, limit).len() == 0,
    decreases src.len(),
{
    let pieces = split_pieces(src, limit);
    if src.len() == 0 {
        assert(src =~= Seq::empty());
    } else if src.len() <= limit {
        pieces.lemma_flatten_singleton();
        assert((src.len() + limit - 1) / (limit as int) == 1) by (nonlinear_arith)
            requires
                0 < src.len() <= limit,
        ;
    } else {
        let head = src.take(limit as int);
        let tail = src.skip(limit as int);
        let rest = split_pieces(tail, limit);
        lemma_split_pieces(tail, limit);
        vstd::seq_lib::lemma_flatten_concat(seq![head], rest);
        seq![head].lemma_flatten_singleton();
        assert(head + tail =~= src);
        assert forall|i: int| 0 <= i < pieces.len() implies 0 < (#[trigger] pieces[i]).len()
            <= limit by {
            if i > 0 {
                assert(pieces[i] == rest[i - 1]);
            }
        }
        assert forall|i: int| 0 <= i < pieces.len() - 1 implies (#[trigger] pieces[i]).len()
            == limit by {
            if i > 0 {
                assert(pieces[i] == rest[i - 1]);
            }
        }
        assert((src.len() + limit - 1) / (limit as int) == (src.len() - limit + limit - 1) / (
        limit as int) + 1) by (nonlinear_arith)
            requires
                limit > 0,
                src.len() > limit,
        ;
    }
}

} // verus!
