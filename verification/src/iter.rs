//! The two ways to take whole chunks out of a buffer.

use bytes::Bytes;
use std::collections::VecDeque;
use vstd::prelude::*;

verus! {

/// The chunks removed from a buffer by its `drain_chunks` method, oldest
/// first.
///
/// The chunks have left the buffer by the time this value exists. Those
/// that are not taken out of it with `next` are released when it is
/// dropped.
pub struct DrainChunks {
    inner: VecDeque<Bytes>,
}

impl View for DrainChunks {
    type V = Seq<Bytes>;

    /// The chunks that are still to be yielded, in the order in which
    /// `next` yields them.
    closed spec fn view(&self) -> Seq<Bytes> {
        self.inner@
    }
}

impl DrainChunks {
    pub(crate) fn new(inner: VecDeque<Bytes>) -> (chunks: Self)
        ensures
            chunks@ == inner@,
    {
        DrainChunks { inner }
    }

    /// Yields the oldest chunk that is left, or `None` when all are gone.
    pub fn next(&mut self) -> (item: Option<Bytes>)
        ensures
            old(self)@.len() == 0 ==> item.is_none() && final(self)@ == old(self)@,
            old(self)@.len() > 0 ==> item == Some(old(self)@[0])
                && final(self)@ == old(self)@.drop_first(),
    {
        self.inner.pop_front()
    }

    /// The number of chunks that are left, as a lower and an upper bound.
    pub fn size_hint(&self) -> (hint: (usize, Option<usize>))
        ensures
            hint.0 == self@.len(),
            hint.1 == Some(hint.0),
    {
        let len = self.inner.len();
        (len, Some(len))
    }

    /// The number of chunks that are left.
    pub fn len(&self) -> (len: usize)
        ensures
            len == self@.len(),
    {
        self.inner.len()
    }
}

/// The chunks of a buffer that was consumed by its `into_chunks` method,
/// oldest first. What was in the staging region is the last of them.
pub struct IntoChunks {
    inner: VecDeque<Bytes>,
}

impl View for IntoChunks {
    type V = Seq<Bytes>;

    /// The chunks that are still to be yielded, in the order in which
    /// `next` yields them.
    closed spec fn view(&self) -> Seq<Bytes> {
        self.inner@
    }
}

impl IntoChunks {
    pub(crate) fn new(inner: VecDeque<Bytes>) -> (chunks: Self)
        ensures
            chunks@ == inner@,
    {
        IntoChunks { inner }
    }

    /// Yields the oldest chunk that is left, or `None` when all are gone.
    pub fn next(&mut self) -> (item: Option<Bytes>)
        ensures
            old(self)@.len() == 0 ==> item.is_none() && final(self)@ == old(self)@,
            old(self)@.len() > 0 ==> item == Some(old(self)@[0])
                && final(self)@ == old(self)@.drop_first(),
    {
        self.inner.pop_front()
    }

    /// The number of chunks that are left, as a lower and an upper bound.
    pub fn size_hint(&self) -> (hint: (usize, Option<usize>))
        ensures
            hint.0 == self@.len(),
            hint.1 == Some(hint.0),
    {
        let len = self.inner.len();
        (len, Some(len))
    }

    /// The number of chunks that are left.
    pub fn len(&self) -> (len: usize)
        ensures
            len == self@.len(),
    {
        self.inner.len()
    }
}

} // verus!
