//! The text container that the codecs work on.
//!
//! `StrChunk` comes from the `strchunk` crate: an immutable, cheaply
//! cloneable range of bytes that is known to be UTF-8. Verus does not look
//! inside it: this module says what each of the operations used by the
//! codecs does to the bytes of the text. None of the statements made here
//! is proved; each is taken from the documentation and the source of
//! `strchunk`.

use crate::storage::{range_bytes, region_bytes};
use bytes::{Bytes, BytesMut};
use range_split::TakeRange;
use strchunk::StrChunk;
use vstd::prelude::*;
use vstd::string::StringSliceAdditionalSpecFns;
use vstd::utf8::{encode_utf8, is_char_boundary, valid_utf8};

verus! {

/// `strchunk::StrChunk`: an immutable range of UTF-8 text.
#[verifier::external_type_specification]
#[verifier::external_body]
pub struct ExStrChunk(strchunk::StrChunk);

/// The bytes of the text that a chunk holds, in order.
pub uninterp spec fn chunk_text(chunk: StrChunk) -> Seq<u8>;

/// What `core::str::from_utf8` finds in a run of bytes: first the length of
/// the longest prefix that is complete, valid UTF-8, which
/// `longest_valid_prefix` pins down; then the length of the invalid
/// sequence that follows it, or `None` where nothing follows or what
/// follows may yet become a valid sequence.
pub uninterp spec fn utf8_scan(bytes: Seq<u8>) -> (nat, Option<usize>);

/// Whether `taken` is the length of the longest prefix of `bytes` that is
/// valid UTF-8: that prefix is valid, and no longer one is.
pub open spec fn longest_valid_prefix(bytes: Seq<u8>, taken: nat) -> bool {
    &&& taken <= bytes.len()
    &&& valid_utf8(bytes.take(taken as int))
    &&& forall|n: int| taken < n <= bytes.len() ==> !valid_utf8(#[trigger] bytes.take(n))
}

/// `StrChunk::new` makes an empty text.
pub assume_specification[ StrChunk::new ]() -> (chunk: StrChunk)
    ensures
        chunk_text(chunk) == Seq::<u8>::empty(),
;

/// `StrChunk::is_empty` tells whether the text has no bytes.
pub assume_specification[ StrChunk::is_empty ](chunk: &StrChunk) -> (empty: bool)
    ensures
        empty == (chunk_text(*chunk).len() == 0),
;

/// `StrChunk::len` is the number of bytes of the text.
pub assume_specification[ StrChunk::len ](chunk: &StrChunk) -> (len: usize)
    ensures
        len == chunk_text(*chunk).len(),
;

/// `StrChunk::as_str` lends the text.
pub assume_specification[ StrChunk::as_str ](chunk: &StrChunk) -> (text: &str)
    ensures
        text.spec_bytes() == chunk_text(*chunk),
;

/// `TakeRange::remove_range` of `StrChunk`, over a range that starts with
/// the text, drops the first `end` bytes of the text. It panics unless
/// `end` lies within the text and on the boundary of a character.
#[verifier::external_body]
pub(crate) fn remove_text_front(chunk: &mut StrChunk, end: usize)
    requires
        end <= chunk_text(*old(chunk)).len(),
        is_char_boundary(chunk_text(*old(chunk)), end as int),
    ensures
        chunk_text(*final(chunk)) == chunk_text(*old(chunk)).skip(end as int),
{
    chunk.remove_range(..end)
}

/// `TakeRange::take_range` of `StrChunk`, over the full range, removes all
/// of the text from the chunk; `From<StrChunk>` of `Bytes` then gives the
/// range of bytes behind the text, without copying it.
#[verifier::external_body]
pub(crate) fn take_text(chunk: &mut StrChunk) -> (bytes: Bytes)
    ensures
        range_bytes(bytes) == chunk_text(*old(chunk)),
        chunk_text(*final(chunk)) == Seq::<u8>::empty(),
{
    chunk.take_range(..).into()
}

/// `From<String>` of `StrChunk` makes a chunk of the text of a string.
#[verifier::external_body]
pub(crate) fn text_from_string(text: String) -> (chunk: StrChunk)
    ensures
        chunk_text(chunk) == encode_utf8(text@),
{
    StrChunk::from(text)
}

/// `String::push` appends a character to the end of a string.
#[verifier::external_body]
pub(crate) fn push_char(text: &mut String, c: char)
    ensures
        final(text)@ == old(text)@.push(c),
{
    text.push(c)
}

/// `StrChunk::extract_utf8` takes the longest prefix of `src` that is
/// complete, valid UTF-8 out of it, as `core::str::from_utf8` finds it. The
/// prefix is the result where nothing invalid follows it; where an invalid
/// sequence follows, the error holds the prefix and the length of that
/// sequence, which stays in `src`. Either way the prefix is valid UTF-8
/// and no longer prefix is, as the documentation of `Utf8Error` says of
/// `valid_up_to`; an invalid sequence is not empty and lies within `src`,
/// as it says of `error_len`.
#[verifier::external_body]
pub(crate) fn extract_utf8(src: &mut BytesMut) -> (res: Result<StrChunk, (StrChunk, usize)>)
    ensures
        longest_valid_prefix(region_bytes(*old(src)), utf8_scan(region_bytes(*old(src))).0),
        region_bytes(*final(src)) == region_bytes(*old(src)).skip(
            utf8_scan(region_bytes(*old(src))).0 as int,
        ),
        match res {
            Ok(text) => utf8_scan(region_bytes(*old(src))).1.is_none()
                && valid_utf8(chunk_text(text))
                && chunk_text(text) == region_bytes(*old(src)).take(
                utf8_scan(region_bytes(*old(src))).0 as int,
            ),
            Err((text, len)) => utf8_scan(region_bytes(*old(src))).1 == Some(len) && 0 < len
                && utf8_scan(region_bytes(*old(src))).0 + len <= region_bytes(*old(src)).len()
                && valid_utf8(chunk_text(text))
                && chunk_text(text) == region_bytes(*old(src)).take(
                utf8_scan(region_bytes(*old(src))).0 as int,
            ),
        },
{
    StrChunk::extract_utf8(src).map_err(
        |e| {
            let len = e.error_len();
            (e.into_extracted(), len)
        },
    )
}

} // verus!
