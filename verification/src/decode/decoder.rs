use super::error::{DecodeError, RecoveryInfo};
use crate::storage::region_bytes;
use bytes::BytesMut;
use strchunk::StrChunk;
use vstd::prelude::*;

verus! {

/// What a decoder returns at the end of the input, from what its last
/// decoding step returned: the step's error, if it failed; the text that it
/// decoded, if no input is left; else the error of an incomplete input,
/// with that text.
pub fn at_end_of_input(
    decoded: Result<StrChunk, DecodeError>,
    input_is_empty: bool,
) -> (res: Result<StrChunk, DecodeError>)
    ensures
        res == match decoded {
            Err(err) => Err(err),
            Ok(text) => if input_is_empty {
                Ok(text)
            } else {
                Err(DecodeError::Encoding(RecoveryInfo::at(text, None)))
            },
        },
{
    match decoded {
        Err(err) => Err(err),
        Ok(text) => {
            if input_is_empty {
                Ok(text)
            } else {
                Err(DecodeError::incomplete_input(text))
            }
        },
    }
}

/// A decoder of text in some encoding.
///
/// A decoder only ever takes bytes from the front of its input: what it
/// leaves is the end of what it was given.
pub trait TextDecoder {
    /// Takes as much encoded text as it can decode from the front of
    /// `src` and returns the text. Bytes at the end of `src` that may be
    /// the start of an encoded sequence are left there for the next call.
    fn decode(&mut self, src: &mut BytesMut) -> (res: Result<StrChunk, DecodeError>)
        ensures
            exists|taken: int|
                0 <= taken <= region_bytes(*old(src)).len() && region_bytes(*final(src))
                    == #[trigger] region_bytes(*old(src)).skip(taken),
    ;

    /// Decodes what is left in `src` at the end of the input. Bytes that
    /// are left in `src` after that make the input incomplete: the result
    /// is a text only if `src` is empty afterwards.
    fn decode_eof(&mut self, src: &mut BytesMut) -> (res: Result<StrChunk, DecodeError>)
        ensures
            exists|taken: int|
                0 <= taken <= region_bytes(*old(src)).len() && region_bytes(*final(src))
                    == #[trigger] region_bytes(*old(src)).skip(taken),
            res.is_ok() ==> region_bytes(*final(src)).len() == 0,
    {
        let decoded = self.decode(src);
        at_end_of_input(decoded, src.is_empty())
    }
}

} // verus!
