//! What holds of every use of a buffer, whatever the chunk size and
//! wherever the chunks happen to end.
//!
//! A use of a buffer is a run of steps, each of which either appends bytes
//! at the back or consumes bytes from the front. The write operations of
//! the buffers append: `advance_mut`, `put_slice`, `write_str` and
//! `put_bytes` add the bytes they are given, and `flush` and the
//! reservations add none. The read operations consume: `advance`,
//! `copy_to_bytes` and `to_bytes` take bytes from the front, and `chunk`
//! and `chunks_vectored` show them without taking any.

use crate::chunked::{contents_of, drains, ingests, reservation_for, yields, Inner};
use crate::model::{
    lemma_advanced, lemma_flushed, lemma_ingested, lemma_split_pieces, split_pieces, BufferView,
};
use crate::storage::range_bytes;
use bytes::Bytes;
use vstd::prelude::*;

verus! {

/// One step in the use of a buffer.
pub enum Step {
    /// These bytes are written, by a commit to the staging region or by
    /// handing a range over.
    Write(Seq<u8>),
    /// This many bytes are read from the front.
    Read(nat),
}

/// Whether `post` is the buffer that the step makes of `pre`. A write may
/// be followed or preceded by any number of flushes, so only the bytes and
/// their order are fixed, not the chunks they are in.
pub open spec fn steps_to(pre: BufferView, step: Step, post: BufferView) -> bool {
    match step {
        Step::Write(src) => post.content() == pre.content() + src,
        Step::Read(cnt) => cnt <= pre.remaining() && post.content() == pre.content().skip(
            cnt as int,
        ),
    }
}

/// Whether the buffers of `states` are those that a buffer goes through in
/// the run `steps`, from `states[0]` on.
pub open spec fn follows(states: Seq<BufferView>, steps: Seq<Step>) -> bool {
    &&& states.len() == steps.len() + 1
    &&& forall|i: int|
        0 <= i < steps.len() ==> steps_to(states[i], #[trigger] steps[i], states[i + 1])
}

/// All the bytes written in the run, in the order in which they were
/// written.
pub open spec fn bytes_written(steps: Seq<Step>) -> Seq<u8>
    decreases steps.len(),
{
    if steps.len() == 0 {
        Seq::empty()
    } else {
        bytes_written(steps.drop_last()) + match steps.last() {
            Step::Write(src) => src,
            Step::Read(_) => Seq::empty(),
        }
    }
}

/// All the bytes read in the run, in the order in which they were read:
/// each read takes the first bytes that the buffer holds at that time.
pub open spec fn bytes_read(states: Seq<BufferView>, steps: Seq<Step>) -> Seq<u8>
    decreases steps.len(),
{
    if steps.len() == 0 || states.len() != steps.len() + 1 {
        Seq::empty()
    } else {
        bytes_read(states.drop_last(), steps.drop_last()) + match steps.last() {
            Step::Write(_) => Seq::empty(),
            Step::Read(cnt) => states[steps.len() - 1].content().take(cnt as int),
        }
    }
}

/// The bytes read in a run, followed by the bytes left in the buffer at its
/// end, are the bytes that the buffer held at the start followed by the
/// bytes written in the run.
pub proof fn lemma_reads_and_rest_are_writes(states: Seq<BufferView>, steps: Seq<Step>)
    requires
        follows(states, steps),
    ensures
        bytes_read(states, steps) + states.last().content() == states[0].content()
            + bytes_written(steps),
    decreases steps.len(),
{
    let last = steps.len() - 1;
    if steps.len() == 0 {
        assert(bytes_read(states, steps) + states.last().content() =~= states[0].content()
            + bytes_written(steps));
    } else {
        let before = states.drop_last();
        let earlier = steps.drop_last();
        assert(follows(before, earlier)) by {
            assert forall|i: int| 0 <= i < earlier.len() implies steps_to(
                before[i],
                #[trigger] earlier[i],
                before[i + 1],
            ) by {
                assert(steps_to(states[i], steps[i], states[i + 1]));
            }
        }
        lemma_reads_and_rest_are_writes(before, earlier);
        assert(before.last() == states[last]);
        assert(before[0] == states[0]);
        assert(steps_to(states[last], steps[last], states[last + 1]));
        let held = states[last].content();
        match steps.last() {
            Step::Write(src) => {
                assert(bytes_read(states, steps) + states.last().content() =~= (bytes_read(
                    before,
                    earlier,
                ) + held) + src);
                assert(states[0].content() + bytes_written(steps) =~= (states[0].content()
                    + bytes_written(earlier)) + src);
            },
            Step::Read(cnt) => {
                assert(held.take(cnt as int) + held.skip(cnt as int) =~= held);
                assert(bytes_read(states, steps) + states.last().content() =~= bytes_read(
                    before,
                    earlier,
                ) + (held.take(cnt as int) + held.skip(cnt as int)));
                assert(states[0].content() + bytes_written(steps) =~= (states[0].content()
                    + bytes_written(earlier)));
            },
        }
    }
}

/// Round trip: in a run that starts with an empty buffer and reads as many
/// bytes as it writes, the bytes read are the bytes written, in their
/// order.
pub proof fn lemma_round_trip(states: Seq<BufferView>, steps: Seq<Step>)
    requires
        follows(states, steps),
        states[0].remaining() == 0,
        bytes_read(states, steps).len() == bytes_written(steps).len(),
    ensures
        bytes_read(states, steps) == bytes_written(steps),
        states.last().remaining() == 0,
{
    lemma_reads_and_rest_are_writes(states, steps);
    let read = bytes_read(states, steps);
    let rest = states.last().content();
    let written = bytes_written(steps);
    assert((read + rest).len() == (states[0].content() + written).len());
    assert(states[0].content() + written =~= written);
    assert(read + rest =~= read);
}

/// Occupancy: after a run that starts with an empty buffer, the number of
/// bytes left to read is the number of bytes written less the number of
/// bytes read.
pub proof fn lemma_occupancy(states: Seq<BufferView>, steps: Seq<Step>)
    requires
        follows(states, steps),
        states[0].remaining() == 0,
    ensures
        bytes_read(states, steps).len() <= bytes_written(steps).len(),
        states.last().remaining() == bytes_written(steps).len() - bytes_read(states, steps).len(),
{
    lemma_reads_and_rest_are_writes(states, steps);
    let read = bytes_read(states, steps);
    let rest = states.last().content();
    let written = bytes_written(steps);
    assert((read + rest).len() == (states[0].content() + written).len());
}

/// What the steps of a run are made of: a commit, a flush, the queueing of
/// ranges and an advance are steps, with the bytes and counts that their
/// names suggest.
pub proof fn lemma_operations_are_steps(
    view: BufferView,
    src: Seq<u8>,
    pieces: Seq<Seq<u8>>,
    cnt: nat,
)
    ensures
        steps_to(view, Step::Write(src), view.written(src)),
        steps_to(view, Step::Write(src), view.written(src).flushed()),
        steps_to(view, Step::Write(Seq::empty()), view.flushed()),
        steps_to(view, Step::Write(pieces.flatten()), view.ingested(pieces)),
        cnt <= view.remaining() ==> steps_to(view, Step::Read(cnt), view.advanced(cnt)),
{
    crate::model::lemma_written(view, src);
    lemma_flushed(view.written(src));
    lemma_flushed(view);
    lemma_ingested(view, pieces);
    assert(view.content() + Seq::<u8>::empty() =~= view.content());
    if cnt <= view.remaining() {
        lemma_advanced(view, cnt);
    }
}

/// Strict bound: in a strict buffer no queued chunk is empty, none is
/// longer than the chunk size limit, and neither is what is staged. Every
/// operation of the strict buffer keeps it so, and the pieces into which a
/// range is cut are within the limit as well.
pub proof fn lemma_strict_bound(buf: crate::strictly::ChunkedBytes, src: Seq<u8>)
    requires
        buf.wf(),
    ensures
        buf@.staging.len() <= buf.chunk_size_limit(),
        forall|i: int|
            0 <= i < buf.queue().len() ==> 0 < range_bytes(#[trigger] buf.queue()[i]).len()
                <= buf.chunk_size_limit(),
        buf.chunk_size_limit() > 0 ==> forall|i: int|
            0 <= i < split_pieces(src, buf.chunk_size_limit() as nat).len() ==> 0 < (
            #[trigger] split_pieces(src, buf.chunk_size_limit() as nat)[i]).len()
                <= buf.chunk_size_limit(),
{
    assert forall|i: int| 0 <= i < buf.queue().len() implies 0 < range_bytes(
        #[trigger] buf.queue()[i],
    ).len() <= buf.chunk_size_limit() by {
        assert(buf@.chunks[i] == range_bytes(buf.queue()[i]));
    }
    if buf.chunk_size_limit() > 0 {
        lemma_split_pieces(src, buf.chunk_size_limit() as nat);
    }
}

/// Zero-copy ingestion: a range that is handed to a buffer whole, and is
/// not empty, is the last of the chunks that the buffer yields when it is
/// consumed right away. It is the same handle, so it refers to the same
/// storage.
pub proof fn lemma_ingested_range_is_yielded(
    before: Inner,
    after: Inner,
    chunk: Bytes,
    yielded: Seq<Bytes>,
)
    requires
        range_bytes(chunk).len() > 0,
        ingests(before, after, chunk),
        yields(after, yielded),
    ensures
        yielded == after.queue(),
        yielded.len() > 0,
        yielded.last() == chunk,
{
    lemma_flushed(before@);
    assert(after@.staging.len() == 0);
    assert(contents_of(yielded).len() == yielded.len());
    assert(contents_of(after.queue()).len() == after.queue().len());
    assert(yielded =~= after.queue());
}

/// Idempotent drain: of two drains with nothing written in between, the
/// second yields nothing and changes nothing.
pub proof fn lemma_second_drain_is_empty(
    before: Inner,
    between: Inner,
    after: Inner,
    first: Seq<Bytes>,
    second: Seq<Bytes>,
)
    requires
        drains(before, between, first),
        drains(between, after, second),
    ensures
        second.len() == 0,
        after@ == between@,
        after.queue() == between.queue(),
{
}

/// No unbounded growth, as far as the buffer decides it. What is staged
/// after a reservation and the room that the reservation asks for are
/// together never more than one chunk. So where the staging region had no
/// more room than one and a half chunks, and the reservation leaves it
/// with no more than it had before or than it is asked to hold, it has no
/// more than one and a half chunks afterwards. Whether the region is left
/// with no more than that is the allocator's to decide.
pub proof fn lemma_reservation_keeps_capacity_bounded(
    capacity: usize,
    staged: usize,
    chunk_size: usize,
    reported: usize,
)
    requires
        staged <= capacity,
        capacity <= chunk_size + chunk_size / 2,
        reported <= capacity || reported <= (if reservation_for(capacity, chunk_size).flush {
            0
        } else {
            staged as int
        }) + reservation_for(capacity, chunk_size).additional,
    ensures
        (if reservation_for(capacity, chunk_size).flush {
            0
        } else {
            staged as int
        }) + reservation_for(capacity, chunk_size).additional <= chunk_size,
        reported <= chunk_size + chunk_size / 2,
{
}

} // verus!
