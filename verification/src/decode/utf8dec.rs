use super::decoder::TextDecoder;
use super::error::{DecodeError, RecoveryInfo};
use crate::storage::region_bytes;
use crate::text::{chunk_text, extract_utf8, longest_valid_prefix, utf8_scan};
use bytes::BytesMut;
use strchunk::StrChunk;
use vstd::prelude::*;
use vstd::utf8::valid_utf8;

verus! {

/// The decoder of UTF-8: the text is the input itself, as far as it is
/// valid.
pub struct Utf8Decoder;

/// Whether `res` is what decoding makes of the input `before`, and `after`
/// the input that it leaves. The longest prefix that is complete, valid
/// UTF-8 is taken, as `utf8_scan` finds it. It is the text of the result
/// where no invalid sequence follows it, and the text of the error where
/// one does; the error holds the length of that sequence as well.
pub open spec fn decodes_utf8(
    before: Seq<u8>,
    after: Seq<u8>,
    res: Result<StrChunk, DecodeError>,
) -> bool {
    let taken = utf8_scan(before).0;
    let invalid = utf8_scan(before).1;
    &&& longest_valid_prefix(before, taken)
    &&& after == before.skip(taken as int)
    &&& match res {
        Ok(text) => invalid.is_none() && chunk_text(text) == before.take(taken as int),
        Err(DecodeError::Encoding(info)) => info.skip_len().is_some() && info.skip_len()
            == invalid && 0 < info.skip_len().unwrap() && taken + info.skip_len().unwrap()
            <= before.len() && info.text() == before.take(taken as int),
        Err(DecodeError::Io(_)) => false,
    }
}

/// Input that is valid UTF-8 is decoded whole: the result is its text, and
/// nothing is left of the input.
pub proof fn lemma_valid_input_decodes_whole(
    before: Seq<u8>,
    after: Seq<u8>,
    res: Result<StrChunk, DecodeError>,
)
    requires
        decodes_utf8(before, after, res),
        valid_utf8(before),
    ensures
        res is Ok,
        chunk_text(res->Ok_0) == before,
        after.len() == 0,
{
    let taken = utf8_scan(before).0;
    assert(before.take(before.len() as int) =~= before);
    assert(taken == before.len());
}

/// What decoding takes is valid UTF-8, and what it leaves is the rest of
/// the input: the two make up the input. Where the decoding fails, the
/// invalid sequence to skip is not empty and lies in the input left.
pub proof fn lemma_decoded_text_and_rest(
    before: Seq<u8>,
    after: Seq<u8>,
    res: Result<StrChunk, DecodeError>,
)
    requires
        decodes_utf8(before, after, res),
    ensures
        match res {
            Ok(text) => valid_utf8(chunk_text(text)) && chunk_text(text) + after == before,
            Err(DecodeError::Encoding(info)) => valid_utf8(info.text()) && info.text() + after
                == before && 0 < info.skip_len().unwrap() <= after.len(),
            Err(DecodeError::Io(_)) => false,
        },
{
    let taken = utf8_scan(before).0 as int;
    assert(before.take(taken) + before.skip(taken) =~= before);
}

impl Utf8Decoder {
    /// Makes a decoder.
    pub fn new() -> (decoder: Utf8Decoder)
        ensures
            decoder == Utf8Decoder,
    {
        Utf8Decoder
    }

    /// Takes the longest prefix of `src` that is complete, valid UTF-8 out
    /// of it, without copying. The prefix is the result where no invalid
    /// sequence follows it; an incomplete sequence at the end of `src`
    /// stays there. Where an invalid sequence follows, the error holds the
    /// prefix and the length of the invalid sequence, which stays in `src`.
    pub fn decode_utf8(src: &mut BytesMut) -> (res: Result<StrChunk, DecodeError>)
        ensures
            decodes_utf8(region_bytes(*old(src)), region_bytes(*final(src)), res),
    {
        broadcast use RecoveryInfo::lemma_at;

        match extract_utf8(src) {
            Ok(text) => Ok(text),
            Err((text, len)) => Err(DecodeError::with_recovery(text, len)),
        }
    }
}

impl TextDecoder for Utf8Decoder {
    fn decode(&mut self, src: &mut BytesMut) -> (res: Result<StrChunk, DecodeError>)
        ensures
            decodes_utf8(region_bytes(*old(src)), region_bytes(*final(src)), res),
    {
        Utf8Decoder::decode_utf8(src)
    }
}

} // verus!
