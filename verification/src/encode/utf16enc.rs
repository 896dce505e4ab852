use super::encoder::TextEncoder;
use super::error::EncodeError;
use crate::loosely::ChunkedBytes;
use crate::text::{chunk_text, remove_text_front};
use crate::utf16::{encode_utf16_char, utf16_bytes, utf16_char_bytes, ByteOrder};
use crate::utf8::{len_utf8, lemma_encoded_prefix, lemma_encoded_push};
use std::marker::PhantomData;
use strchunk::StrChunk;
use vstd::prelude::*;
use vstd::string::StringSliceAdditionalSpecFns;
use vstd::utf8::{decode_utf8, encode_utf8};

verus! {

/// The encoder to UTF-16 in the byte order `Bo`.
pub struct Utf16Encoder<Bo> {
    _byte_order: PhantomData<Bo>,
}

/// The characters of the text that a chunk holds.
pub open spec fn chunk_chars(chunk: StrChunk) -> Seq<char> {
    decode_utf8(chunk_text(chunk))
}

impl<Bo: ByteOrder> Utf16Encoder<Bo> {
    /// Makes an encoder.
    pub fn new() -> (encoder: Self) {
        Utf16Encoder { _byte_order: PhantomData }
    }

    /// Writes characters from the front of `input` to `output`, each as
    /// its one or two code units, each code unit as its two bytes in the
    /// byte order, and removes them from `input`.
    ///
    /// The first character is written in any case. After it, characters
    /// are written as long as the staging region of `output` has room for
    /// them without growing, so that a caller can write the buffer out
    /// before more is encoded. How many characters that is depends on the
    /// room that the allocator gave.
    pub fn encode_utf16(input: &mut StrChunk, output: &mut ChunkedBytes)
        requires
            old(output).wf(),
            old(output).writable(),
        ensures
            final(output).wf(),
            final(output).chunk_size_hint() == old(output).chunk_size_hint(),
            old(output).queue().is_prefix_of(final(output).queue()),
            exists|taken: int|
                0 <= taken <= chunk_chars(*old(input)).len() && (chunk_chars(*old(input)).len() > 0
                    ==> taken > 0) && final(output)@.content() == old(output)@.content()
                    + utf16_bytes::<Bo>(#[trigger] chunk_chars(*old(input)).take(taken))
                    && chunk_text(*final(input)) == encode_utf8(
                    chunk_chars(*old(input)).skip(taken),
                ),
            exists|taken: int|
                0 <= taken <= chunk_text(*old(input)).len() && chunk_text(*final(input))
                    == #[trigger] chunk_text(*old(input)).skip(taken),
    {
        broadcast use vstd::utf8::group_utf8_lib;

        let text = input.as_str();
        let ghost chars = text@;
        let ghost bytes = chunk_text(*input);
        let len = input.len();
        let mut encoded_to: usize = 0;
        let ghost mut done: int = 0;
        // A staging region without room reserves some first: the room is
        // then seen by the loop below.
        output.chunk_mut();
        proof {
            crate::model::lemma_flushed(old(output)@);
            vstd::utf8::encode_utf8_decode_utf8(chars);
            vstd::string::axiom_spec_iter(text);
            assert(chars.take(0) =~= Seq::empty());
            assert(output@.content() + utf16_bytes::<Bo>(chars.take(0)) =~= output@.content());
        }
        for c in it: text.chars()
            invariant_except_break
                done == it.index(),
            invariant
                output.wf(),
                output.writable(),
                output.chunk_size_hint() == old(output).chunk_size_hint(),
                old(output).queue().is_prefix_of(output.queue()),
                it.seq() == chars,
                bytes == encode_utf8(chars),
                bytes.len() == len,
                decode_utf8(bytes) == chars,
                0 <= done <= chars.len(),
                encoded_to == encode_utf8(chars.take(done)).len(),
                (encoded_to == 0) == (done == 0),
                output@.content() == old(output)@.content() + utf16_bytes::<Bo>(chars.take(done)),
            ensures
                chars.len() > 0 ==> done > 0,
        {
            let ghost before = output@.content();
            let ghost prefix = chars.take(done);
            let (first, second) = encode_utf16_char(c);
            let bytes_len: usize = if second.is_some() {
                4
            } else {
                2
            };
            if encoded_to != 0 && output.remaining_mut() < bytes_len {
                // Cannot fit this character into the output buffer
                // without expanding its capacity.
                // Return what has been encoded so far.
                break ;
            }
            let head = Bo::write_u16(first);
            output.put_slice(head.as_slice());
            match second {
                None => {},
                Some(trail) => {
                    let tail = Bo::write_u16(trail);
                    output.put_slice(tail.as_slice());
                },
            }
            proof {
                let next = chars.take(done + 1);
                assert(next =~= prefix.push(c));
                assert(next.drop_last() =~= prefix);
                assert(output@.content() =~= before + utf16_char_bytes::<Bo>(c));
                assert(output@.content() =~= old(output)@.content() + utf16_bytes::<Bo>(next));
                lemma_encoded_push(prefix, c);
                lemma_encoded_prefix(chars, done + 1);
                done = done + 1;
            }
            encoded_to = encoded_to + len_utf8(c);
        }
        proof {
            lemma_encoded_prefix(chars, done);
            assert(bytes.skip(encoded_to as int) =~= encode_utf8(chars.skip(done)));
        }
        remove_text_front(input, encoded_to);
        proof {
            let all = chunk_chars(*old(input));
            assert(all == chars);
            assert(output@.content() == old(output)@.content() + utf16_bytes::<Bo>(
                all.take(done),
            ));
            assert(chunk_text(*input) == encode_utf8(all.skip(done)));
        }
    }
}

impl<Bo: ByteOrder> TextEncoder for Utf16Encoder<Bo> {
    fn encode(&mut self, input: &mut StrChunk, output: &mut ChunkedBytes) -> (res: Result<
        (),
        EncodeError,
    >)
        ensures
            res.is_ok(),
            exists|taken: int|
                0 <= taken <= chunk_chars(*old(input)).len() && (chunk_chars(*old(input)).len() > 0
                    ==> taken > 0) && final(output)@.content() == old(output)@.content()
                    + utf16_bytes::<Bo>(#[trigger] chunk_chars(*old(input)).take(taken))
                    && chunk_text(*final(input)) == encode_utf8(
                    chunk_chars(*old(input)).skip(taken),
                ),
    {
        Utf16Encoder::<Bo>::encode_utf16(input, output);
        Ok(())
    }
}

} // verus!
