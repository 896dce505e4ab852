//! UTF-16: characters as code units, and code units as bytes.

use vstd::prelude::*;

verus! {

/// The order in which the two bytes of a code unit are written.
pub trait ByteOrder: Sized {
    /// The two bytes of a code unit, in this order.
    spec fn unit_bytes(unit: u16) -> Seq<u8>;

    /// The bytes of a code unit.
    fn write_u16(unit: u16) -> (bytes: [u8; 2])
        ensures
            bytes@ == Self::unit_bytes(unit),
    ;

    /// The code unit whose bytes, in this order, are `first` and `second`.
    spec fn bytes_unit(first: u8, second: u8) -> u16;

    /// The code unit of two bytes.
    fn read_u16(first: u8, second: u8) -> (unit: u16)
        ensures
            unit == Self::bytes_unit(first, second),
            Self::unit_bytes(unit) == seq![first, second],
    ;
}

/// The byte order with the high byte first.
#[derive(Clone, Copy, Debug, PartialEq, Eq, Structural)]
pub struct BigEndian;

/// The byte order with the low byte first.
#[derive(Clone, Copy, Debug, PartialEq, Eq, Structural)]
pub struct LittleEndian;

/// The high byte of a code unit.
pub open spec fn high_byte(unit: u16) -> u8 {
    (unit / 256) as u8
}

/// The low byte of a code unit.
pub open spec fn low_byte(unit: u16) -> u8 {
    (unit % 256) as u8
}

/// The high and the low byte of a code unit, and the unit that has given
/// bytes.
fn split_unit(unit: u16) -> (bytes: (u8, u8))
    ensures
        bytes.0 == high_byte(unit),
        bytes.1 == low_byte(unit),
{
    ((unit / 256) as u8, (unit % 256) as u8)
}

/// The code unit with the given high and low byte.
fn join_unit(high: u8, low: u8) -> (unit: u16)
    ensures
        high_byte(unit) == high,
        low_byte(unit) == low,
        unit == high * 256 + low,
{
    (high as u16) * 256 + (low as u16)
}

impl ByteOrder for BigEndian {
    open spec fn unit_bytes(unit: u16) -> Seq<u8> {
        seq![high_byte(unit), low_byte(unit)]
    }

    fn write_u16(unit: u16) -> (bytes: [u8; 2]) {
        let (high, low) = split_unit(unit);
        let bytes = [high, low];
        assert(bytes@ =~= seq![high, low]);
        bytes
    }

    open spec fn bytes_unit(first: u8, second: u8) -> u16 {
        (first * 256 + second) as u16
    }

    fn read_u16(first: u8, second: u8) -> (unit: u16) {
        join_unit(first, second)
    }
}

impl ByteOrder for LittleEndian {
    open spec fn unit_bytes(unit: u16) -> Seq<u8> {
        seq![low_byte(unit), high_byte(unit)]
    }

    fn write_u16(unit: u16) -> (bytes: [u8; 2]) {
        let (high, low) = split_unit(unit);
        let bytes = [low, high];
        assert(bytes@ =~= seq![low, high]);
        bytes
    }

    open spec fn bytes_unit(first: u8, second: u8) -> u16 {
        (second * 256 + first) as u16
    }

    fn read_u16(first: u8, second: u8) -> (unit: u16) {
        join_unit(second, first)
    }
}

/// Whether a code unit is the first of a surrogate pair.
pub open spec fn is_lead_surrogate(unit: u16) -> bool {
    0xD800 <= unit <= 0xDBFF
}

/// Whether a code unit is the second of a surrogate pair.
pub open spec fn is_trail_surrogate(unit: u16) -> bool {
    0xDC00 <= unit <= 0xDFFF
}

/// The code units of a character: the character itself, if it is in the
/// basic plane; else a lead and a trail surrogate, which hold the upper and
/// the lower ten bits of what the character is above the basic plane.
pub open spec fn utf16_units(c: char) -> Seq<u16> {
    let v = c as u32;
    if v < 0x10000 {
        seq![v as u16]
    } else {
        seq![(0xD800 + (v - 0x10000) / 0x400) as u16, (0xDC00 + (v - 0x10000) % 0x400) as u16]
    }
}

/// The bytes of a character in UTF-16, in the given byte order.
pub open spec fn utf16_char_bytes<Bo: ByteOrder>(c: char) -> Seq<u8> {
    if utf16_units(c).len() == 1 {
        Bo::unit_bytes(utf16_units(c)[0])
    } else {
        Bo::unit_bytes(utf16_units(c)[0]) + Bo::unit_bytes(utf16_units(c)[1])
    }
}

/// The bytes of a text in UTF-16, in the given byte order.
pub open spec fn utf16_bytes<Bo: ByteOrder>(chars: Seq<char>) -> Seq<u8>
    decreases chars.len(),
{
    if chars.len() == 0 {
        Seq::empty()
    } else {
        utf16_bytes::<Bo>(chars.drop_last()) + utf16_char_bytes::<Bo>(chars.last())
    }
}

/// Encodes a character in UTF-16: the first code unit, and the second if
/// the character takes two.
pub fn encode_utf16_char(c: char) -> (units: (u16, Option<u16>))
    ensures
        utf16_units(c) == match units.1 {
            None => seq![units.0],
            Some(trail) => seq![units.0, trail],
        },
        units.1.is_some() <==> c as u32 >= 0x10000,
        units.1.is_some() ==> is_lead_surrogate(units.0) && is_trail_surrogate(units.1.unwrap()),
        units.1.is_none() ==> !is_lead_surrogate(units.0) && !is_trail_surrogate(units.0),
{
    let v = c as u32;
    if v < 0x10000 {
        (v as u16, None)
    } else {
        let above = v - 0x10000;
        ((0xD800 + above / 0x400) as u16, Some((0xDC00 + above % 0x400) as u16))
    }
}

/// What a decoder makes of one more code unit.
#[derive(Clone, Copy, Debug, PartialEq, Eq, Structural)]
pub enum Decoded {
    /// The unit is a lead surrogate: the character is complete with the
    /// next unit.
    Pending(u16),
    /// The unit completes this character.
    Char(char),
    /// The unit cannot stand here. To get past the error, this many of the
    /// bytes of the unit are skipped: both, if the unit is a trail surrogate
    /// without a lead; none, if the unit is no trail surrogate and follows
    /// a lead, in which case it is the lead that is dropped.
    Invalid(usize),
}

/// The code units that a run of bytes holds: one for each two bytes, in the
/// given byte order. A last byte without a second one holds none.
pub open spec fn units_of<Bo: ByteOrder>(bytes: Seq<u8>) -> Seq<u16> {
    Seq::new((bytes.len() / 2) as nat, |i: int| Bo::bytes_unit(bytes[2 * i], bytes[2 * i + 1]))
}

/// What a decoder makes of a run of code units.
pub struct Run {
    /// The characters decoded.
    pub chars: Seq<char>,
    /// The lead surrogate that the run ends with, if it ends with one.
    pub lead: Option<u16>,
    /// The number of code units taken from the input.
    pub consumed: nat,
    /// Whether the run ended at a code unit that cannot stand where it
    /// stands, and the number of bytes to skip to get past the error.
    pub error: Option<usize>,
}

/// What a decoder that has decoded `chars` and seen the lead surrogate
/// `lead`, or none, makes of the code units `units`: it goes on to their end
/// or to the first that cannot stand where it stands. That unit is not
/// taken, but a lead surrogate before it is dropped.
pub open spec fn decode_run(lead: Option<u16>, units: Seq<u16>, chars: Seq<char>) -> Run
    decreases units.len(),
{
    if units.len() == 0 {
        Run { chars, lead, consumed: 0, error: None }
    } else {
        match decoded(lead, units[0]) {
            Decoded::Pending(unit) => {
                let rest = decode_run(Some(unit), units.drop_first(), chars);
                Run { consumed: rest.consumed + 1, ..rest }
            },
            Decoded::Char(c) => {
                let rest = decode_run(None, units.drop_first(), chars.push(c));
                Run { consumed: rest.consumed + 1, ..rest }
            },
            Decoded::Invalid(skip) => Run { chars, lead: None, consumed: 0, error: Some(skip) },
        }
    }
}

/// What a decoder that has seen the lead surrogate `lead`, or none, makes
/// of the code unit `unit`. A trail surrogate completes the character that
/// a lead surrogate began; any other unit stands for itself.
pub open spec fn decoded(lead: Option<u16>, unit: u16) -> Decoded {
    match lead {
        None => if is_lead_surrogate(unit) {
            Decoded::Pending(unit)
        } else if is_trail_surrogate(unit) {
            Decoded::Invalid(2)
        } else {
            Decoded::Char(unit as char)
        },
        Some(high) => if is_lead_surrogate(high) && is_trail_surrogate(unit) {
            Decoded::Char(
                (0x10000 + (high - 0xD800) * 0x400 + (unit - 0xDC00)) as char,
            )
        } else {
            Decoded::Invalid(0)
        },
    }
}

/// `char::from_u32` gives the character with the given number, if it is
/// the number of a character: a number up to `0x10FFFF` that is not the
/// number of a surrogate.
#[verifier::external_body]
fn char_from_u32(number: u32) -> (c: Option<char>)
    ensures
        c == if number <= 0xD7FF || 0xE000 <= number <= 0x10FFFF {
            Some(number as char)
        } else {
            None
        },
{
    char::from_u32(number)
}

/// Decodes one more code unit, after the lead surrogate `lead` or after
/// none.
pub fn decode_utf16_unit(lead: Option<u16>, unit: u16) -> (res: Decoded)
    ensures
        res == decoded(lead, unit),
{
    match lead {
        None => {
            if 0xD800 <= unit && unit <= 0xDBFF {
                Decoded::Pending(unit)
            } else if 0xDC00 <= unit && unit <= 0xDFFF {
                Decoded::Invalid(2)
            } else {
                match char_from_u32(unit as u32) {
                    Some(c) => Decoded::Char(c),
                    None => Decoded::Invalid(2),
                }
            }
        },
        Some(high) => {
            if 0xD800 <= high && high <= 0xDBFF && 0xDC00 <= unit && unit <= 0xDFFF {
                let number: u32 = 0x10000 + ((high - 0xD800) as u32) * 0x400 + ((unit
                    - 0xDC00) as u32);
                match char_from_u32(number) {
                    Some(c) => Decoded::Char(c),
                    None => Decoded::Invalid(0),
                }
            } else {
                Decoded::Invalid(0)
            }
        },
    }
}

/// Decoding undoes encoding: the code units of a character, decoded one
/// after the other, give the character back.
pub proof fn lemma_decoded_units(c: char)
    ensures
        utf16_units(c).len() == 1 ==> decoded(None, utf16_units(c)[0]) == Decoded::Char(c),
        utf16_units(c).len() == 2 ==> decoded(None, utf16_units(c)[0]) == Decoded::Pending(
            utf16_units(c)[0],
        ) && decoded(Some(utf16_units(c)[0]), utf16_units(c)[1]) == Decoded::Char(c),
        utf16_units(c).len() == 1 || utf16_units(c).len() == 2,
{
    let v = c as u32;
    if v >= 0x10000 {
        let above = (v - 0x10000) as int;
        assert(above / 0x400 <= 0x3FF);
        assert(above == (above / 0x400) * 0x400 + above % 0x400);
    }
}

/// The code units of a text: those of its characters, one after another.
pub open spec fn utf16_units_of(chars: Seq<char>) -> Seq<u16>
    decreases chars.len(),
{
    if chars.len() == 0 {
        Seq::empty()
    } else {
        utf16_units(chars[0]) + utf16_units_of(chars.drop_first())
    }
}

/// Decoding undoes encoding: a decoder that has seen no lead surrogate
/// takes all the code units of a text, finds no error in them, and adds
/// the characters of the text to those that it has decoded.
pub proof fn lemma_decode_run_of_units(chars: Seq<char>, before: Seq<char>)
    ensures
        decode_run(None, utf16_units_of(chars), before) == (Run {
            chars: before + chars,
            lead: None,
            consumed: utf16_units_of(chars).len(),
            error: None,
        }),
    decreases chars.len(),
{
    if chars.len() == 0 {
        assert(before + chars =~= before);
    } else {
        let first = chars[0];
        let rest = chars.drop_first();
        let units = utf16_units_of(chars);
        let rest_units = utf16_units_of(rest);
        lemma_decoded_units(first);
        lemma_decode_run_of_units(rest, before.push(first));
        assert(before.push(first) + rest =~= before + chars);
        if utf16_units(first).len() == 1 {
            assert(units.drop_first() =~= rest_units);
        } else {
            assert(units.drop_first().drop_first() =~= rest_units);
            assert(units.drop_first()[0] == utf16_units(first)[1]);
            assert(decode_run(Some(units[0]), units.drop_first(), before) == (Run {
                consumed: rest_units.len() + 1,
                ..decode_run(None, rest_units, before.push(first))
            }));
        }
    }
}

} // verus!
