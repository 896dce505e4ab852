//! Decoders that turn bytes read from input into text.

mod decoder;
mod error;
mod utf16dec;
mod utf8dec;

pub use self::decoder::{at_end_of_input, TextDecoder};
pub use self::error::{DecodeError, RecoveryInfo};
pub use self::utf16dec::{DecoderState, Utf16Decoder};
pub use self::utf8dec::{decodes_utf8, Utf8Decoder};
