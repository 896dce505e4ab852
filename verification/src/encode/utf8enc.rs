use super::encoder::TextEncoder;
use super::error::EncodeError;
use crate::loosely::ChunkedBytes;
use crate::model::lemma_ingested;
use crate::storage::range_bytes;
use crate::text::{chunk_text, take_text};
use strchunk::StrChunk;
use vstd::prelude::*;

verus! {

/// The encoder to UTF-8: the output is the text itself.
pub struct Utf8Encoder {}

impl Utf8Encoder {
    /// Hands all of the text in `input` over to `output` as one chunk,
    /// without copying it, and leaves `input` empty. Bytes staged in
    /// `output` are split off as a chunk first, so that the order is kept.
    /// An empty text leaves `output` as it is.
    pub fn encode_utf8(input: &mut StrChunk, output: &mut ChunkedBytes)
        requires
            old(output).wf(),
        ensures
            final(output).wf(),
            final(output).chunk_size_hint() == old(output).chunk_size_hint(),
            chunk_text(*final(input)) == Seq::<u8>::empty(),
            chunk_text(*old(input)).len() == 0 ==> final(output)@ == old(output)@,
            chunk_text(*old(input)).len() > 0 ==> final(output)@ == old(output)@.ingested(
                seq![chunk_text(*old(input))],
            ),
            final(output)@.content() == old(output)@.content() + chunk_text(*old(input)),
    {
        let bytes = take_text(input);
        proof {
            let pieces = seq![range_bytes(bytes)];
            lemma_ingested(output@, pieces);
            pieces.lemma_flatten_singleton();
            if range_bytes(bytes).len() == 0 {
                assert(output@.content() + range_bytes(bytes) =~= output@.content());
            }
        }
        output.put_bytes(bytes);
    }
}

impl TextEncoder for Utf8Encoder {
    fn encode(&mut self, input: &mut StrChunk, output: &mut ChunkedBytes) -> (res: Result<
        (),
        EncodeError,
    >)
        ensures
            res.is_ok(),
            chunk_text(*final(input)) == Seq::<u8>::empty(),
            final(output)@.content() == old(output)@.content() + chunk_text(*old(input)),
    {
        let ghost text = chunk_text(*input);
        Utf8Encoder::encode_utf8(input, output);
        assert(chunk_text(*input) =~= text.skip(text.len() as int));
        Ok(())
    }
}

} // verus!
