use super::decoder::TextDecoder;
use super::error::{DecodeError, RecoveryInfo};
use crate::storage::{advance_region, region_as_slice, region_bytes};
use crate::text::{chunk_text, push_char, text_from_string};
use crate::utf16::{decode_run, decode_utf16_unit, decoded, units_of, ByteOrder, Decoded, Run};
use bytes::BytesMut;
use std::marker::PhantomData;
use strchunk::StrChunk;
use vstd::prelude::*;
use vstd::utf8::encode_utf8;

verus! {

/// The decoder of UTF-16 in the byte order `Bo`.
///
/// A surrogate pair may be cut in two by the end of the input of one call.
/// The decoder keeps the lead surrogate for the next call.
pub struct Utf16Decoder<Bo> {
    _byte_order: PhantomData<Bo>,
    state: DecoderState,
}

/// What a decoder holds while it decodes: the lead surrogate that it has
/// seen last, if the character is not complete yet, and the text decoded
/// so far.
pub struct DecoderState {
    lead_surrogate: Option<u16>,
    buf: String,
}

impl DecoderState {
    /// The state of a decoder that has seen nothing.
    pub fn new() -> (state: DecoderState)
        ensures
            state.lead().is_none(),
            state.chars() == Seq::<char>::empty(),
    {
        DecoderState { lead_surrogate: None, buf: String::new() }
    }

    /// The lead surrogate that was seen last and is not yet part of a
    /// character.
    pub closed spec fn lead(&self) -> Option<u16> {
        self.lead_surrogate
    }

    /// The characters decoded and not yet taken.
    pub closed spec fn chars(&self) -> Seq<char> {
        self.buf@
    }

    /// Takes the text decoded so far.
    pub fn take_decoded(&mut self) -> (text: StrChunk)
        ensures
            chunk_text(text) == encode_utf8(old(self).chars()),
            final(self).chars() == Seq::<char>::empty(),
            final(self).lead() == old(self).lead(),
    {
        let mut taken = String::new();
        std::mem::swap(&mut self.buf, &mut taken);
        text_from_string(taken)
    }

    /// Decodes one more code unit. A lead surrogate is kept for the next
    /// unit; a character that the unit completes joins the text. A unit
    /// that cannot stand where it stands is an error that holds the text
    /// decoded before it; a lead surrogate before it is dropped.
    pub fn decode_step(&mut self, code_unit: u16) -> (res: Result<(), DecodeError>)
        ensures
            match decoded(old(self).lead(), code_unit) {
                Decoded::Pending(unit) => res.is_ok() && final(self).lead() == Some(unit)
                    && final(self).chars() == old(self).chars(),
                Decoded::Char(c) => res.is_ok() && final(self).lead().is_none()
                    && final(self).chars() == old(self).chars().push(c),
                Decoded::Invalid(skip) => final(self).lead().is_none() && final(self).chars()
                    == Seq::<char>::empty() && match res {
                    Err(DecodeError::Encoding(info)) => info.skip_len() == Some(skip)
                        && info.text() == encode_utf8(old(self).chars()),
                    _ => false,
                },
            },
    {
        broadcast use RecoveryInfo::lemma_at;

        let lead_surrogate = self.lead_surrogate;
        self.lead_surrogate = None;
        match decode_utf16_unit(lead_surrogate, code_unit) {
            Decoded::Pending(unit) => {
                self.lead_surrogate = Some(unit);
                Ok(())
            },
            Decoded::Char(c) => {
                push_char(&mut self.buf, c);
                Ok(())
            },
            Decoded::Invalid(skip) => {
                let text = self.take_decoded();
                Err(DecodeError::with_recovery(text, skip))
            },
        }
    }
}

impl<Bo: ByteOrder> Utf16Decoder<Bo> {
    /// Makes a decoder.
    pub fn new() -> (decoder: Self)
        ensures
            decoder.lead().is_none(),
            decoder.chars() == Seq::<char>::empty(),
    {
        Utf16Decoder { _byte_order: PhantomData, state: DecoderState::new() }
    }

    /// The lead surrogate that was seen last and is not yet part of a
    /// character.
    pub closed spec fn lead(&self) -> Option<u16> {
        self.state.lead()
    }

    /// The characters decoded and not yet handed out. There are none
    /// between two calls.
    pub closed spec fn chars(&self) -> Seq<char> {
        self.state.chars()
    }

    /// What the decoder makes of the bytes `bytes`.
    pub open spec fn run(&self, bytes: Seq<u8>) -> Run {
        decode_run(self.lead(), units_of::<Bo>(bytes), self.chars())
    }

    /// Whether `res` is what the decoder `pre` makes of the input `before`,
    /// `post` the decoder afterwards and `after` the input that it leaves.
    /// The code units of the run are taken from the input, two bytes each.
    /// The decoder keeps the lead surrogate that the run ends with and no
    /// text. The text of the run is the result where the run found no
    /// error, and the text of the error where it found one.
    pub open spec fn decodes(
        pre: Self,
        post: Self,
        before: Seq<u8>,
        after: Seq<u8>,
        res: Result<StrChunk, DecodeError>,
    ) -> bool {
        let run = pre.run(before);
        &&& 2 * run.consumed <= before.len()
        &&& after == before.skip(2 * run.consumed as int)
        &&& post.lead() == run.lead
        &&& post.chars() == Seq::<char>::empty()
        &&& match res {
            Ok(text) => run.error.is_none() && chunk_text(text) == encode_utf8(run.chars),
            Err(DecodeError::Encoding(info)) => info.skip_len().is_some() && info.skip_len()
                == run.error && info.text() == encode_utf8(run.chars),
            Err(DecodeError::Io(_)) => false,
        }
    }

    /// Takes the code units at the front of `src`, two bytes each, and
    /// decodes them, up to the end of `src` or to the first unit that cannot
    /// stand where it stands. A last byte without a second one stays in
    /// `src`, and so does the unit of an error. The result is the text
    /// decoded; the error holds the text decoded before it.
    pub fn decode_utf16(&mut self, src: &mut BytesMut) -> (res: Result<StrChunk, DecodeError>)
        ensures
            Self::decodes(
                *old(self),
                *final(self),
                region_bytes(*old(src)),
                region_bytes(*final(src)),
                res,
            ),
    {
        let ghost bytes = region_bytes(*src);
        let ghost total = self.run(bytes);
        let ghost mut taken: nat = 0;
        assert(bytes.skip(0) =~= bytes);
        loop
            invariant
                2 * taken <= bytes.len(),
                region_bytes(*src) == bytes.skip(2 * taken as int),
                total == old(self).run(bytes),
                bytes == region_bytes(*old(src)),
                total.consumed >= taken,
                self.run(region_bytes(*src)) == (Run {
                    consumed: (total.consumed - taken) as nat,
                    ..total
                }),
            ensures
                region_bytes(*src).len() < 2,
            decreases region_bytes(*src).len(),
        {
            let ghost left = region_bytes(*src);
            if src.len() < 2 {
                assert(units_of::<Bo>(left) =~= Seq::empty());
                break ;
            }
            let slice = region_as_slice(src);
            let code_unit = Bo::read_u16(slice[0], slice[1]);
            proof {
                assert(units_of::<Bo>(left)[0] == code_unit);
                assert(units_of::<Bo>(left.skip(2)) =~= units_of::<Bo>(left).drop_first());
                assert(bytes.skip(2 * taken as int).skip(2) =~= bytes.skip(2 * (taken + 1) as int));
            }
            match self.state.decode_step(code_unit) {
                Err(err) => {
                    return Err(err);
                },
                Ok(()) => {
                    advance_region(src, 2);
                    proof {
                        taken = taken + 1;
                    }
                },
            }
        }
        assert(units_of::<Bo>(region_bytes(*src)) =~= Seq::empty());
        Ok(self.state.take_decoded())
    }
}

impl<Bo: ByteOrder> TextDecoder for Utf16Decoder<Bo> {
    fn decode(&mut self, src: &mut BytesMut) -> (res: Result<StrChunk, DecodeError>)
        ensures
            Self::decodes(
                *old(self),
                *final(self),
                region_bytes(*old(src)),
                region_bytes(*final(src)),
                res,
            ),
    {
        self.decode_utf16(src)
    }
}

} // verus!
