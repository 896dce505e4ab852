//! Encoders that turn text into bytes for output.

mod encoder;
mod error;
mod utf16enc;
mod utf8enc;

pub use self::encoder::TextEncoder;
pub use self::error::{hex_digit, hex_digits, EncodeError};
pub use self::utf16enc::{chunk_chars, Utf16Encoder};
pub use self::utf8enc::Utf8Encoder;
