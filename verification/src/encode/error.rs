use crate::io::io_error_message;
use crate::text::push_char;
use vstd::prelude::*;

verus! {

/// Why encoding stopped.
#[derive(Debug)]
pub enum EncodeError {
    /// The output could not be written.
    Io(std::io::Error),
    /// The text holds a character that the encoding has no sequence for.
    Unrepresentable(char),
}

/// The digit for a value below sixteen: `0` to `9`, then `A` to `F`.
pub open spec fn hex_digit(value: nat) -> char {
    if value < 10 {
        (0x30 + value) as char
    } else {
        (0x41 + value - 10) as char
    }
}

/// A number below `0x1000000` in hexadecimal digits: at least four of
/// them, and more only where the number needs more.
pub open spec fn hex_digits(number: nat) -> Seq<char> {
    let high = if number >= 0x100000 {
        seq![hex_digit(number / 0x100000 % 16), hex_digit(number / 0x10000 % 16)]
    } else if number >= 0x10000 {
        seq![hex_digit(number / 0x10000 % 16)]
    } else {
        Seq::empty()
    };
    high + seq![
        hex_digit(number / 0x1000 % 16),
        hex_digit(number / 0x100 % 16),
        hex_digit(number / 0x10 % 16),
        hex_digit(number % 16),
    ]
}

/// Appends a text to the end of a string, character by character.
fn push_text(text: &mut String, tail: &str)
    ensures
        final(text)@ == old(text)@ + tail@,
{
    proof {
        vstd::string::axiom_spec_iter(tail);
        assert(text@ + tail@.take(0) =~= text@);
    }
    for c in it: tail.chars()
        invariant
            it.seq() == tail@,
            text@ == old(text)@ + tail@.take(it.index()),
    {
        push_char(text, c);
        assert(tail@.take(it.index() + 1) =~= tail@.take(it.index()).push(c));
    }
    assert(tail@.take(tail@.len() as int) =~= tail@);
}

/// The digit for a value below sixteen.
fn digit_of(value: u32) -> (digit: char)
    requires
        value < 16,
    ensures
        digit == hex_digit(value as nat),
{
    if value < 10 {
        (0x30 + value as u8) as char
    } else {
        (0x41 + (value - 10) as u8) as char
    }
}

/// Writes a number below `0x1000000` to the end of `text` in hexadecimal
/// digits.
fn push_hex(text: &mut String, number: u32)
    requires
        number < 0x1000000,
    ensures
        final(text)@ == old(text)@ + hex_digits(number as nat),
{
    if number >= 0x100000 {
        push_char(text, digit_of(number / 0x100000 % 16));
    }
    if number >= 0x10000 {
        push_char(text, digit_of(number / 0x10000 % 16));
    }
    push_char(text, digit_of(number / 0x1000 % 16));
    push_char(text, digit_of(number / 0x100 % 16));
    push_char(text, digit_of(number / 0x10 % 16));
    push_char(text, digit_of(number % 16));
    assert(text@ =~= old(text)@ + hex_digits(number as nat));
}

impl EncodeError {
    /// What the error says in words. For an output that could not be
    /// written, these are the words of the output error; a character that
    /// cannot be encoded is named by its number.
    pub fn message(&self) -> (message: String)
        ensures
            match self {
                EncodeError::Io(_) => true,
                EncodeError::Unrepresentable(c) => message@ == "Unicode character U+"@
                    + hex_digits(*c as nat) + " cannot be represented in this encoding"@,
            },
    {
        match self {
            EncodeError::Io(e) => io_error_message(e),
            EncodeError::Unrepresentable(c) => {
                let mut message = "Unicode character U+".to_owned();
                push_hex(&mut message, *c as u32);
                push_text(&mut message, " cannot be represented in this encoding");
                message
            },
        }
    }

    /// The error that lies behind this one: the output error, if the output
    /// could not be written.
    pub fn source(&self) -> (cause: Option<&std::io::Error>)
        ensures
            cause == match self {
                EncodeError::Io(e) => Some(e),
                EncodeError::Unrepresentable(_) => None,
            },
    {
        match self {
            EncodeError::Io(e) => Some(e),
            EncodeError::Unrepresentable(_) => None,
        }
    }
}

impl From<std::io::Error> for EncodeError {
    fn from(src: std::io::Error) -> (err: EncodeError) {
        EncodeError::Io(src)
    }
}

impl vstd::std_specs::convert::FromSpecImpl<std::io::Error> for EncodeError {
    open spec fn obeys_from_spec() -> bool {
        true
    }

    open spec fn from_spec(src: std::io::Error) -> EncodeError {
        EncodeError::Io(src)
    }
}

} // verus!
