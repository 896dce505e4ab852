//! The decisions of a reader that reads bytes from an input and decodes
//! them to text.
//!
//! The reader itself waits for the input and so is not part of this
//! library. What it decides between its waits is decided here: what to do
//! with the outcome of a read, and when the input has ended.

use vstd::prelude::*;

verus! {

/// The size of the buffer that a reader reads into, unless it is told
/// another.
pub const DEFAULT_CAPACITY: usize = 8 * 1024;

/// What a reader does next.
#[derive(Clone, Copy, Debug, PartialEq, Eq, Structural)]
pub enum ReadStep {
    /// Read from the input, after making room for at least one byte, so
    /// that a read of no bytes can only mean the end of the input.
    Read,
    /// Decode what was read.
    Decode,
    /// Decode what is left at the end of the input, and yield the outcome.
    Finish,
}

/// What a reader knows of its input between two calls.
#[derive(Clone, Copy, Debug, PartialEq, Eq, Structural)]
pub struct ReaderState {
    /// Whether the input has ended.
    pub eof: bool,
}

impl ReaderState {
    /// The state of a reader whose input has not ended.
    pub fn new() -> (state: ReaderState)
        ensures
            !state.eof,
    {
        ReaderState { eof: false }
    }

    /// What the reader does first in each round: it finishes once the input
    /// has ended, and reads until then.
    pub fn next_step(&self) -> (step: ReadStep)
        ensures
            step == if self.eof {
                ReadStep::Finish
            } else {
                ReadStep::Read
            },
    {
        if self.eof {
            ReadStep::Finish
        } else {
            ReadStep::Read
        }
    }

    /// What the reader does after a read of `nread` bytes: a read of no
    /// bytes is the end of the input; after any other, what was read is
    /// decoded.
    pub fn after_read(&mut self, nread: usize) -> (step: ReadStep)
        ensures
            final(self).eof == (old(self).eof || nread == 0),
            step == if nread == 0 {
                ReadStep::Finish
            } else {
                ReadStep::Decode
            },
    {
        if nread == 0 {
            self.eof = true;
            ReadStep::Finish
        } else {
            ReadStep::Decode
        }
    }

    /// Whether decoded text is yielded: an empty text is not, and the
    /// reader reads on instead.
    pub fn yields(text_is_empty: bool) -> (yielded: bool)
        ensures
            yielded == !text_is_empty,
    {
        !text_is_empty
    }
}

} // verus!
