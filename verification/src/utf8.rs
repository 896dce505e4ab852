//! What the codecs need to know of UTF-8 beyond what `vstd::utf8` states.

use vstd::prelude::*;
use vstd::utf8::{
    encode_scalar, encode_utf8, encode_utf8_first_scalar, encode_utf8_valid_utf8,
    is_char_boundary,
};

verus! {

/// The number of bytes that a character takes in UTF-8.
pub open spec fn utf8_len(c: char) -> nat {
    encode_scalar(c as u32).len()
}

/// The number of bytes that a character takes in UTF-8: one to four.
pub fn len_utf8(c: char) -> (len: usize)
    ensures
        len == utf8_len(c),
        1 <= len <= 4,
{
    let number = c as u32;
    if number < 0x80 {
        1
    } else if number < 0x800 {
        2
    } else if number < 0x10000 {
        3
    } else {
        4
    }
}

/// A text in UTF-8 is its first characters in UTF-8 followed by its other
/// characters in UTF-8, and where the two meet is the boundary of a
/// character.
pub proof fn lemma_encoded_prefix(chars: Seq<char>, k: int)
    requires
        0 <= k <= chars.len(),
    ensures
        encode_utf8(chars) == encode_utf8(chars.take(k)) + encode_utf8(chars.skip(k)),
        encode_utf8(chars.take(k)).len() <= encode_utf8(chars).len(),
        is_char_boundary(encode_utf8(chars), encode_utf8(chars.take(k)).len() as int),
    decreases k,
{
    let bytes = encode_utf8(chars);
    encode_utf8_valid_utf8(chars);
    if k == 0 {
        assert(chars.take(0) =~= Seq::empty());
        assert(chars.skip(0) =~= chars);
        assert(encode_utf8(chars.take(k)) + encode_utf8(chars.skip(k)) =~= bytes);
    } else {
        let first = encode_scalar(chars[0] as u32);
        let rest = chars.drop_first();
        lemma_encoded_prefix(rest, k - 1);
        assert(chars.take(k).drop_first() =~= rest.take(k - 1));
        assert(chars.take(k)[0] == chars[0]);
        assert(chars.skip(k) =~= rest.skip(k - 1));
        assert(encode_utf8(chars.take(k)) == first + encode_utf8(rest.take(k - 1)));
        assert(bytes =~= encode_utf8(chars.take(k)) + encode_utf8(chars.skip(k)));
        encode_utf8_first_scalar(chars);
        assert(vstd::utf8::pop_first_scalar(bytes) =~= encode_utf8(rest));
    }
}

/// A text with one more character is, in UTF-8, the text followed by the
/// bytes of the character.
pub proof fn lemma_encoded_push(chars: Seq<char>, c: char)
    ensures
        encode_utf8(chars.push(c)) == encode_utf8(chars) + encode_scalar(c as u32),
{
    let all = chars.push(c);
    lemma_encoded_prefix(all, chars.len() as int);
    assert(all.take(chars.len() as int) =~= chars);
    assert(all.skip(chars.len() as int) =~= seq![c]);
    assert(seq![c].drop_first() =~= Seq::<char>::empty());
    assert(encode_utf8(Seq::<char>::empty()) =~= Seq::<u8>::empty());
    assert(seq![c][0] == c);
    assert(encode_utf8(seq![c]) =~= encode_scalar(c as u32) + encode_utf8(seq![c].drop_first()));
}

} // verus!
