//! The decisions of a writer that encodes text and sends the bytes to an
//! output.
//!
//! The writer itself waits for the output and so is not part of this
//! library. What it decides between its waits is decided here: whether it
//! takes another text, whether the buffer of encoded bytes should be
//! written out before more is encoded, and whether all is sent.

use crate::loosely::ChunkedBytes;
use crate::text::chunk_text;
use strchunk::StrChunk;
use vstd::prelude::*;

verus! {

/// What a writer does with a text that it is offered.
#[derive(Debug)]
pub enum Started {
    /// The text was taken and will be encoded.
    Ready,
    /// The writer is still busy with an earlier text; the text is handed
    /// back.
    NotReady(StrChunk),
}

/// What a writer holds between two calls: the text that is still to be
/// encoded, the encoded bytes that are still to be written, and whether
/// the end of the text was encoded.
pub struct WriterState {
    /// The text that is still to be encoded.
    pub remaining_str: StrChunk,
    /// The encoded bytes that are still to be written.
    pub encoded_buf: ChunkedBytes,
    /// Whether the end of the text was encoded.
    pub eof_encoded: bool,
}

impl WriterState {
    /// The state of a writer that has encoded nothing yet and writes
    /// through the given buffer.
    pub fn new(encoded_buf: ChunkedBytes) -> (state: WriterState)
        ensures
            state.encoded_buf == encoded_buf,
            chunk_text(state.remaining_str).len() == 0,
            !state.eof_encoded,
    {
        WriterState { remaining_str: StrChunk::new(), encoded_buf, eof_encoded: false }
    }

    /// Offers a text to the writer. The text is taken if nothing is left of
    /// the text before it, and handed back otherwise. No text may be offered
    /// once the end was encoded.
    pub fn start(&mut self, item: StrChunk) -> (started: Started)
        requires
            !old(self).eof_encoded,
        ensures
            final(self).encoded_buf == old(self).encoded_buf,
            final(self).eof_encoded == old(self).eof_encoded,
            chunk_text(old(self).remaining_str).len() == 0 ==> started == Started::Ready
                && final(self).remaining_str == item,
            chunk_text(old(self).remaining_str).len() > 0 ==> started == Started::NotReady(item)
                && final(self).remaining_str == old(self).remaining_str,
    {
        if !self.remaining_str.is_empty() {
            return Started::NotReady(item);
        }
        self.remaining_str = item;
        Started::Ready
    }

    /// Whether sending is complete: it is once the buffer of encoded bytes
    /// is written out. By then the encoder has to have taken all of the text;
    /// what held the text is released.
    pub fn try_end(&mut self) -> (done: bool)
        requires
            old(self).encoded_buf@.chunks.len() == 0 && old(self).encoded_buf@.staging.len() == 0
                ==> chunk_text(old(self).remaining_str).len() == 0,
        ensures
            done == (old(self).encoded_buf@.chunks.len() == 0
                && old(self).encoded_buf@.staging.len() == 0),
            final(self).encoded_buf == old(self).encoded_buf,
            final(self).eof_encoded == old(self).eof_encoded,
            done ==> chunk_text(final(self).remaining_str).len() == 0,
            !done ==> final(self).remaining_str == old(self).remaining_str,
    {
        if self.encoded_buf.is_empty() {
            self.remaining_str = StrChunk::new();
            true
        } else {
            false
        }
    }

    /// Whether the buffer holds a chunk's worth of encoded bytes or more, so
    /// that it should be written out before more text is encoded.
    pub fn buf_filled(&self) -> (filled: bool)
        ensures
            filled == (self.encoded_buf@.remaining() >= self.encoded_buf.chunk_size_hint()),
    {
        let size = self.encoded_buf.chunk_size_hint();
        self.encoded_buf.remaining_up_to(size) >= size
    }

    /// Whether the text is encoded to its end, so that the end itself is
    /// to be encoded next.
    pub fn at_end_of_text(&self) -> (at_end: bool)
        ensures
            at_end == (chunk_text(self.remaining_str).len() == 0 && !self.eof_encoded),
    {
        self.remaining_str.is_empty() && !self.eof_encoded
    }
}

} // verus!
