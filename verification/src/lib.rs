//! A non-contiguous buffer for efficient serialization of data structures
//! and vectored output.
//!
//! Small writes are coalesced in a staging region; once that region is
//! complete, or when a caller hands over a byte range of its own, the bytes
//! join a queue of immutable chunks that a reader consumes in order, one
//! slice at a time or gathered for a single vectored write.
//!
//! Every function of this library carries a contract, stated over the
//! bytes that the buffer holds, so that what is read back is shown to be
//! what was written. Verus proves the contracts of the library's own
//! functions. What is stated of the outside crates and of std is taken
//! from their documentation and source, and is believed, not proved: that
//! is so of the items of the modules `storage`, `text` and `io`, and of
//! one conversion from a number to a character in `utf16`.

pub mod chunked;
pub mod decode;
pub mod encode;
pub mod io;
pub mod iter;
pub mod laws;
pub mod loosely;
pub mod model;
pub mod read;
pub mod storage;
pub mod strictly;
pub mod text;
pub mod utf16;
pub mod utf8;
pub mod write;

pub use self::iter::{DrainChunks, IntoChunks};
pub use self::loosely::ChunkedBytes;
