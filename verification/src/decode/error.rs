use crate::io::io_error_message;
use crate::text::chunk_text;
use strchunk::StrChunk;
use vstd::prelude::*;

verus! {

/// Why decoding stopped.
#[derive(Debug)]
pub enum DecodeError {
    /// The input is not in the encoding.
    Encoding(RecoveryInfo),
    /// The input could not be read.
    Io(std::io::Error),
}

/// What a decoder could make of the input before the place where the input
/// is not in the encoding, and how to go on behind that place.
#[derive(Debug)]
pub struct RecoveryInfo {
    decoded: StrChunk,
    skip_len: Option<usize>,
}

impl DecodeError {
    /// The error of an input that ends inside an encoded sequence.
    /// `decoded` is the text decoded before that sequence.
    pub fn incomplete_input(decoded: StrChunk) -> (err: DecodeError)
        ensures
            err == DecodeError::Encoding(RecoveryInfo::at(decoded, None)),
    {
        DecodeError::Encoding(RecoveryInfo { decoded, skip_len: None })
    }

    /// The error of an input with an invalid sequence. `decoded` is the
    /// text decoded before that sequence, and `skip_len` the number of
    /// bytes to skip in the input to get past it.
    pub fn with_recovery(decoded: StrChunk, skip_len: usize) -> (err: DecodeError)
        ensures
            err == DecodeError::Encoding(RecoveryInfo::at(decoded, Some(skip_len))),
    {
        DecodeError::Encoding(RecoveryInfo { decoded, skip_len: Some(skip_len) })
    }

    /// What the error says in words. For an input that could not be read,
    /// these are the words of the input error.
    pub fn message(&self) -> (message: String)
        ensures
            match self {
                DecodeError::Encoding(info) => message@ == if info.skip_len().is_some() {
                    "invalid encoding sequence in input"@
                } else {
                    "incomplete encoding sequence in input"@
                },
                DecodeError::Io(_) => true,
            },
    {
        match self {
            DecodeError::Encoding(info) => match info.skip_len {
                Some(_) => "invalid encoding sequence in input".to_owned(),
                None => "incomplete encoding sequence in input".to_owned(),
            },
            DecodeError::Io(io_err) => io_error_message(io_err),
        }
    }

    /// The error that lies behind this one: the input error, if the input
    /// could not be read.
    pub fn source(&self) -> (cause: Option<&std::io::Error>)
        ensures
            cause == match self {
                DecodeError::Encoding(_) => None,
                DecodeError::Io(io_err) => Some(io_err),
            },
    {
        match self {
            DecodeError::Encoding(_) => None,
            DecodeError::Io(io_err) => Some(io_err),
        }
    }
}

impl RecoveryInfo {
    /// The recovery information that holds these two values.
    pub closed spec fn at(decoded: StrChunk, skip_len: Option<usize>) -> RecoveryInfo {
        RecoveryInfo { decoded, skip_len }
    }

    /// The text decoded before the error.
    pub closed spec fn decoded(&self) -> StrChunk {
        self.decoded
    }

    /// The bytes of the text decoded before the error.
    pub open spec fn text(&self) -> Seq<u8> {
        chunk_text(self.decoded())
    }

    /// The number of bytes to skip in the input to get past the invalid
    /// sequence, or `None` where the input ended inside a sequence.
    #[verifier::when_used_as_spec(spec_skip_len)]
    pub fn skip_len(&self) -> (len: Option<usize>)
        ensures
            len == self.skip_len(),
    {
        self.skip_len
    }

    /// The number of bytes to skip, for contracts.
    pub closed spec fn spec_skip_len(&self) -> Option<usize> {
        self.skip_len
    }

    /// The text decoded before the error.
    pub fn into_decoded(self) -> (decoded: StrChunk)
        ensures
            decoded == self.decoded(),
    {
        self.decoded
    }

    /// Holding two values is holding each of them.
    pub broadcast proof fn lemma_at(decoded: StrChunk, skip_len: Option<usize>)
        ensures
            (#[trigger] RecoveryInfo::at(decoded, skip_len)).decoded() == decoded,
            RecoveryInfo::at(decoded, skip_len).skip_len() == skip_len,
    {
    }
}

impl From<std::io::Error> for DecodeError {
    fn from(src: std::io::Error) -> (err: DecodeError) {
        DecodeError::Io(src)
    }
}

impl vstd::std_specs::convert::FromSpecImpl<std::io::Error> for DecodeError {
    open spec fn obeys_from_spec() -> bool {
        true
    }

    open spec fn from_spec(src: std::io::Error) -> DecodeError {
        DecodeError::Io(src)
    }
}

} // verus!
