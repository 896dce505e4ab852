use super::error::EncodeError;
use crate::loosely::ChunkedBytes;
use crate::text::chunk_text;
use strchunk::StrChunk;
use vstd::prelude::*;

verus! {

/// An encoder of text in some encoding.
///
/// An encoder only ever adds to the output: what the buffer held stays in
/// front of what the encoder writes. Of the input it takes characters from
/// the front, and never more than it has written the encoding of.
pub trait TextEncoder {
    /// Encodes text from the front of `input` to the end of `output` and
    /// removes from `input` what it has encoded.
    fn encode(&mut self, input: &mut StrChunk, output: &mut ChunkedBytes) -> (res: Result<
        (),
        EncodeError,
    >)
        requires
            old(output).wf(),
            old(output).writable(),
        ensures
            final(output).wf(),
            final(output).chunk_size_hint() == old(output).chunk_size_hint(),
            old(output)@.content().is_prefix_of(final(output)@.content()),
            exists|taken: int|
                0 <= taken <= chunk_text(*old(input)).len() && chunk_text(*final(input))
                    == #[trigger] chunk_text(*old(input)).skip(taken),
    ;

    /// Writes what the encoding needs at the end of the text. Most
    /// encodings need nothing.
    fn encode_eof(&mut self, output: &mut ChunkedBytes) -> (res: Result<(), EncodeError>)
        requires
            old(output).wf(),
            old(output).writable(),
        ensures
            final(output).wf(),
            final(output).chunk_size_hint() == old(output).chunk_size_hint(),
            old(output)@.content().is_prefix_of(final(output)@.content()),
    {
        Ok(())
    }
}

} // verus!
