//! The byte containers that the buffer is built from.
//!
//! `Bytes` and `BytesMut` come from the `bytes` crate. Verus does not look
//! inside them: this module says what each of the operations used by the
//! buffer does to the bytes that a container holds. None of the statements
//! made here is proved; each is taken from the documentation and the source
//! of `bytes`.

use bytes::{Buf, BufMut, Bytes, BytesMut};
use vstd::prelude::*;

verus! {

/// `bytes::Bytes`: an immutable, cheaply cloneable range of bytes.
#[verifier::external_type_specification]
#[verifier::external_body]
pub struct ExBytes(bytes::Bytes);

/// `bytes::BytesMut`: a growable region of bytes with a single owner.
#[verifier::external_type_specification]
#[verifier::external_body]
pub struct ExBytesMut(bytes::BytesMut);

/// The bytes that an immutable range holds, in order.
pub uninterp spec fn range_bytes(range: Bytes) -> Seq<u8>;

/// The bytes that a mutable region holds between its start and its write
/// cursor, in order.
pub uninterp spec fn region_bytes(region: BytesMut) -> Seq<u8>;

/// The most bytes that this library ever asks one region to hold: a quarter
/// of the address space. Below this bound none of the capacity computations
/// made inside `BytesMut` or the vector behind it overflows.
pub const MAX_REGION_LEN: usize = usize::MAX / 4;

/// The room that `BytesMut` makes for itself when it is asked for a
/// writable view and has none.
pub const MIN_VIEW_RESERVE: usize = 64;

/// `Bytes::len` is the number of bytes in the range.
pub assume_specification[ Bytes::len ](range: &Bytes) -> (len: usize)
    ensures
        len == range_bytes(*range).len(),
;

/// `Bytes::is_empty` tells whether the range holds no byte.
pub assume_specification[ Bytes::is_empty ](range: &Bytes) -> (empty: bool)
    ensures
        empty == (range_bytes(*range).len() == 0),
;

/// `Bytes::split_to` detaches the first `at` bytes as a range of their own
/// and leaves the rest. It panics when `at` is past the end.
pub assume_specification[ Bytes::split_to ](range: &mut Bytes, at: usize) -> (head: Bytes)
    requires
        at <= range_bytes(*old(range)).len(),
    ensures
        range_bytes(head) == range_bytes(*old(range)).take(at as int),
        range_bytes(*final(range)) == range_bytes(*old(range)).skip(at as int),
;

/// `BytesMut::new` makes an empty region.
pub assume_specification[ BytesMut::new ]() -> (region: BytesMut)
    ensures
        region_bytes(region) == Seq::<u8>::empty(),
;

/// `BytesMut::len` is the number of bytes written to the region and not yet
/// consumed.
pub assume_specification[ BytesMut::len ](region: &BytesMut) -> (len: usize)
    ensures
        len == region_bytes(*region).len(),
;

/// `BytesMut::with_capacity` makes an empty region. It panics where the
/// vector behind the region cannot be that large, which the bound excludes.
pub assume_specification[ BytesMut::with_capacity ](capacity: usize) -> (region: BytesMut)
    requires
        capacity <= MAX_REGION_LEN,
    ensures
        region_bytes(region) == Seq::<u8>::empty(),
;

/// `BytesMut::is_empty` tells whether the region holds no byte.
pub assume_specification[ BytesMut::is_empty ](region: &BytesMut) -> (empty: bool)
    ensures
        empty == (region_bytes(*region).len() == 0),
;

/// `BytesMut::capacity` is the number of bytes that the region can hold
/// without reallocating. It depends on what the allocator gave, so all that
/// is said of it is that the bytes held so far fit.
pub assume_specification[ BytesMut::capacity ](region: &BytesMut) -> (capacity: usize)
    ensures
        capacity >= region_bytes(*region).len(),
;

/// `BytesMut::reserve` makes room for at least `additional` more bytes and
/// leaves the bytes held untouched; `BytesMut::capacity`, asked right after
/// it, reports a capacity that holds the bytes and the room made. How much
/// more it reports is the allocator's to decide. `reserve` panics when a
/// capacity that it computes overflows; under the bound required here none
/// does.
#[verifier::external_body]
pub(crate) fn reserve_region(region: &mut BytesMut, additional: usize) -> (capacity: usize)
    requires
        region_bytes(*old(region)).len() + additional <= MAX_REGION_LEN,
    ensures
        region_bytes(*final(region)) == region_bytes(*old(region)),
        capacity >= region_bytes(*old(region)).len() + additional,
{
    region.reserve(additional);
    region.capacity()
}

/// `BytesMut::extend_from_slice` appends the bytes of `extend`, growing the
/// region first where they do not fit. It reserves room as
/// `BytesMut::reserve` does, hence the bound of `reserve_region`.
pub assume_specification[ BytesMut::extend_from_slice ](region: &mut BytesMut, extend: &[u8])
    requires
        region_bytes(*old(region)).len() + extend@.len() <= MAX_REGION_LEN,
    ensures
        region_bytes(*final(region)) == region_bytes(*old(region)) + extend@,
;

/// `BytesMut::split` removes all the bytes held and returns them in a region
/// of their own; the region it is called on is empty afterwards.
pub assume_specification[ BytesMut::split ](region: &mut BytesMut) -> (taken: BytesMut)
    ensures
        region_bytes(taken) == region_bytes(*old(region)),
        region_bytes(*final(region)) == Seq::<u8>::empty(),
;

/// `BytesMut::freeze` turns the region into an immutable range of the same
/// bytes.
pub assume_specification[ BytesMut::freeze ](region: BytesMut) -> (range: Bytes)
    ensures
        range_bytes(range) == region_bytes(region),
;

/// `Buf::advance` of `Bytes` drops the first `cnt` bytes of the range. It
/// panics when `cnt` is more than the range holds.
#[verifier::external_body]
pub(crate) fn advance_range(range: &mut Bytes, cnt: usize)
    requires
        cnt <= range_bytes(*old(range)).len(),
    ensures
        range_bytes(*final(range)) == range_bytes(*old(range)).skip(cnt as int),
{
    range.advance(cnt)
}

/// `Buf::advance` of `BytesMut` drops the first `cnt` bytes of the region. It
/// panics when `cnt` is more than the region holds.
#[verifier::external_body]
pub(crate) fn advance_region(region: &mut BytesMut, cnt: usize)
    requires
        cnt <= region_bytes(*old(region)).len(),
    ensures
        region_bytes(*final(region)) == region_bytes(*old(region)).skip(cnt as int),
{
    region.advance(cnt)
}

/// `Buf::copy_to_bytes` of `BytesMut` detaches the first `len` bytes of the
/// region as an immutable range, without copying them. It panics when `len`
/// is more than the region holds.
#[verifier::external_body]
pub(crate) fn split_region_to_range(region: &mut BytesMut, len: usize) -> (head: Bytes)
    requires
        len <= region_bytes(*old(region)).len(),
    ensures
        range_bytes(head) == region_bytes(*old(region)).take(len as int),
        region_bytes(*final(region)) == region_bytes(*old(region)).skip(len as int),
{
    region.copy_to_bytes(len)
}

/// `BufMut::chunk_mut` of `BytesMut` lends the unwritten room behind the
/// write cursor; this is the length of what it lends. A region without room
/// first reserves `MIN_VIEW_RESERVE` bytes, so the view is never empty. The
/// bytes held do not change.
#[verifier::external_body]
pub(crate) fn region_view_len(region: &mut BytesMut) -> (len: usize)
    requires
        region_bytes(*old(region)).len() + MIN_VIEW_RESERVE <= MAX_REGION_LEN,
    ensures
        len > 0,
        region_bytes(*final(region)) == region_bytes(*old(region)),
{
    region.chunk_mut().len()
}

/// `AsRef<[u8]>` of `Bytes` lends the bytes of the range as a slice.
#[verifier::external_body]
pub(crate) fn range_as_slice(range: &Bytes) -> (slice: &[u8])
    ensures
        slice@ == range_bytes(*range),
{
    range.as_ref()
}

/// `AsRef<[u8]>` of `BytesMut` lends the bytes of the region as a slice.
#[verifier::external_body]
pub(crate) fn region_as_slice(region: &BytesMut) -> (slice: &[u8])
    ensures
        slice@ == region_bytes(*region),
{
    region.as_ref()
}

} // verus!
