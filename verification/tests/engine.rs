use bytes::Bytes;
use chunked_bytes::chunked::{
    lesser_of, plan_reservation, room_in, AdvanceStopped, Inner, Reservation,
};
use chunked_bytes::{ChunkedBytes, DrainChunks, IntoChunks};

#[test]
fn reservation_plans() {
    assert_eq!(plan_reservation(0, 8), Reservation { flush: false, additional: 8 });
    assert_eq!(plan_reservation(5, 8), Reservation { flush: false, additional: 3 });
    assert_eq!(plan_reservation(6, 8), Reservation { flush: true, additional: 8 });
    assert_eq!(plan_reservation(8, 8), Reservation { flush: true, additional: 8 });
    assert_eq!(plan_reservation(1, 1), Reservation { flush: false, additional: 0 });
    assert_eq!(plan_reservation(0, 0), Reservation { flush: false, additional: 0 });
    assert_eq!(plan_reservation(1, 0), Reservation { flush: true, additional: 0 });
    assert_eq!(plan_reservation(2730, 4096), Reservation { flush: false, additional: 1366 });
    assert_eq!(plan_reservation(2731, 4096), Reservation { flush: false, additional: 1365 });
    assert_eq!(plan_reservation(2732, 4096), Reservation { flush: true, additional: 4096 });
    assert_eq!(
        plan_reservation(usize::MAX, usize::MAX),
        Reservation { flush: false, additional: 0 }
    );
    assert_eq!(
        plan_reservation(usize::MAX, usize::MAX - 1),
        Reservation { flush: true, additional: usize::MAX - 1 }
    );
}

#[test]
fn engine_advance_reports_where_it_stopped() {
    let mut inner = Inner::with_chunk_size(16);
    inner.push_chunk(Bytes::from_static(b"abc"));
    inner.push_chunk(Bytes::from_static(b"defg"));
    inner.advance_mut(b"hij");
    assert_eq!(inner.remaining(), 10);
    assert_eq!(inner.advance(0), AdvanceStopped::InChunk);
    assert_eq!(inner.advance(2), AdvanceStopped::InChunk);
    assert_eq!(inner.chunk(), b"c");
    assert_eq!(inner.advance(1), AdvanceStopped::InChunk);
    assert_eq!(inner.chunk(), b"defg");
    assert_eq!(inner.advance(5), AdvanceStopped::InStaging(1));
    assert_eq!(inner.chunk(), b"ij");
    assert_eq!(inner.staging_len(), 2);
    assert_eq!(inner.advance(2), AdvanceStopped::InStaging(2));
    assert!(inner.is_empty());
    assert_eq!(inner.advance(0), AdvanceStopped::InStaging(0));
}

#[test]
fn engine_advance_to_the_end_of_the_queue_stops_in_staging() {
    let mut inner = Inner::with_profile(16, 2);
    inner.push_chunk(Bytes::from_static(b"abc"));
    assert_eq!(inner.advance(3), AdvanceStopped::InStaging(0));
    assert!(inner.is_empty());
}

#[test]
fn engine_push_chunk_flushes_first() {
    let mut inner = Inner::default();
    assert_eq!(inner.chunk_size(), 4096);
    inner.advance_mut(b"staged");
    let range = Bytes::from_static(b"queued");
    inner.push_chunk(range.clone());
    assert_eq!(inner.staging_len(), 0);
    assert_eq!(inner.chunk(), b"staged");
    assert_eq!(inner.remaining(), 12);
    let mut chunks = inner.drain_chunks();
    assert_eq!(chunks.len(), 2);
    assert_eq!(chunks.next().as_deref(), Some(&b"staged"[..]));
    let last = chunks.next().expect("the range is the newest chunk");
    assert_eq!(last.as_ptr(), range.as_ptr());
    assert_eq!(&last[..], b"queued");
}

#[test]
fn engine_push_chunk_reads_in_writing_order() {
    let mut inner = Inner::with_chunk_size(16);
    inner.advance_mut(&[1]);
    inner.push_chunk(Bytes::from_static(&[2]));
    inner.advance_mut(&[3]);
    assert_eq!(&inner.take_bytes()[..], &[1, 2, 3][..]);
}

#[test]
fn engine_push_chunk_of_an_empty_range_changes_nothing() {
    let mut inner = Inner::with_chunk_size(16);
    inner.push_chunk(Bytes::new());
    assert!(inner.is_empty());
    inner.advance_mut(b"staged");
    inner.push_chunk(Bytes::new());
    assert_eq!(inner.staging_len(), 6);
    assert_eq!(inner.drain_chunks().len(), 0);
    assert_eq!(inner.chunk(), b"staged");
}

#[test]
fn engine_reserve_staging_makes_room_for_a_chunk() {
    let mut inner = Inner::with_chunk_size(32);
    assert_eq!(inner.staging_capacity(), 0);
    assert_eq!(inner.remaining_mut(), 0);
    let capacity = inner.reserve_staging();
    assert!(capacity >= 32);
    assert_eq!(inner.staging_capacity(), capacity);
    assert_eq!(inner.remaining_mut(), capacity);
    assert_eq!(inner.chunk_mut(), capacity);
    inner.advance_mut(&vec![1u8; capacity]);
    assert_eq!(inner.remaining_mut(), 0);
    let again = inner.reserve_staging();
    assert!(again >= 32);
    let mut chunks = inner.drain_chunks();
    assert_eq!(chunks.len(), 1);
    assert_eq!(chunks.next().map(|c| c.len()), Some(capacity));
}

#[test]
fn engine_remaining_up_to_stops_at_the_limit() {
    let mut inner = Inner::with_chunk_size(16);
    assert_eq!(inner.remaining_up_to(5), 0);
    inner.push_chunk(Bytes::from_static(b"abc"));
    inner.push_chunk(Bytes::from_static(b"defg"));
    inner.advance_mut(b"hij");
    assert_eq!(inner.remaining_up_to(0), 0);
    assert_eq!(inner.remaining_up_to(2), 2);
    assert_eq!(inner.remaining_up_to(3), 3);
    assert_eq!(inner.remaining_up_to(9), 9);
    assert_eq!(inner.remaining_up_to(10), 10);
    assert_eq!(inner.remaining_up_to(11), 10);
    assert_eq!(inner.remaining_up_to(usize::MAX), 10);
}

#[test]
fn engine_into_chunks_yields_staged_bytes_last() {
    let mut inner = Inner::with_chunk_size(16);
    inner.push_chunk(Bytes::from_static(b"abc"));
    inner.advance_mut(b"de");
    let mut chunks: IntoChunks = inner.into_chunks();
    assert_eq!(chunks.size_hint(), (2, Some(2)));
    assert_eq!(chunks.next().as_deref(), Some(&b"abc"[..]));
    assert_eq!(chunks.len(), 1);
    assert_eq!(chunks.next().as_deref(), Some(&b"de"[..]));
    assert_eq!(chunks.next(), None);
    assert_eq!(chunks.next(), None);
    assert_eq!(Inner::with_chunk_size(16).into_chunks().len(), 0);
}

#[test]
fn root_names_the_loose_buffer_and_the_chunk_sequences() {
    let mut buf = ChunkedBytes::with_chunk_size_hint(4);
    buf.put_bytes(Bytes::from(vec![0u8; 9]));
    let mut chunks: DrainChunks = buf.drain_chunks();
    assert_eq!(chunks.next().map(|c| c.len()), Some(9));
}

#[test]
fn engine_reserves_as_planned_for_the_capacity_given() {
    let mut inner = Inner::with_chunk_size(8);
    inner.advance_mut(&[1u8; 5]);
    let reported = inner.reserve_staging_with(5);
    assert!(reported >= 8);
    assert_eq!(inner.staging_len(), 5);
    assert_eq!(inner.drain_chunks().len(), 0);

    inner.advance_mut(&[2u8; 1]);
    let reported = inner.reserve_staging_with(6);
    assert!(reported >= 8);
    assert_eq!(inner.staging_len(), 0);
    let mut chunks = inner.drain_chunks();
    assert_eq!(chunks.len(), 1);
    assert_eq!(chunks.next().as_deref(), Some(&[1u8, 1, 1, 1, 1, 2][..]));

    let mut empty = Inner::with_chunk_size(8);
    assert!(empty.reserve_staging_with(100) >= 8);
    assert!(empty.is_empty());
}

#[test]
fn room_is_the_capacity_less_what_is_staged() {
    assert_eq!(room_in(0, 0), 0);
    assert_eq!(room_in(8, 0), 8);
    assert_eq!(room_in(8, 3), 5);
    assert_eq!(room_in(8, 8), 0);
    assert_eq!(room_in(usize::MAX, 1), usize::MAX - 1);
}

#[test]
fn lesser_of_two_numbers() {
    assert_eq!(lesser_of(3, 8), 3);
    assert_eq!(lesser_of(8, 3), 3);
    assert_eq!(lesser_of(5, 5), 5);
    assert_eq!(lesser_of(0, usize::MAX), 0);
    assert_eq!(lesser_of(usize::MAX, usize::MAX - 1), usize::MAX - 1);
}

#[test]
fn engine_and_buffers_can_be_formatted_for_debugging() {
    let mut inner = Inner::with_chunk_size(8);
    inner.push_chunk(Bytes::from(&b"ab"[..]));
    assert!(format!("{:?}", inner).contains("chunk_size: 8"));
    let loose = ChunkedBytes::with_chunk_size_hint(16);
    assert!(format!("{:?}", loose).contains("chunk_size: 16"));
    let strict = chunked_bytes::strictly::ChunkedBytes::with_chunk_size_limit(32);
    assert!(format!("{:?}", strict).contains("cap: 0"));
}

#[test]
fn reservation_asks_for_no_more_than_a_chunk_holds() {
    for chunk_size in [0usize, 1, 2, 3, 8, 64, 4096] {
        for capacity in 0..=(chunk_size + chunk_size / 2) {
            let plan = plan_reservation(capacity, chunk_size);
            for staged in [0, capacity / 2, capacity] {
                let kept = if plan.flush { 0 } else { staged };
                assert!(kept + plan.additional <= chunk_size);
            }
        }
    }
}

#[test]
fn engine_view_for_a_reported_capacity() {
    let mut inner = Inner::with_chunk_size(8);
    inner.advance_mut(b"abc");
    assert_eq!(inner.chunk_mut_with(4), 1);
    assert_eq!(inner.chunk_mut_with(11), 8);
    assert_eq!(inner.staging_len(), 3);
    let grown = inner.chunk_mut_with(3);
    assert!(grown > 0);
    assert_eq!(inner.staging_len(), 3);
    assert_eq!(inner.chunk(), &b"abc"[..]);
    let capacity = inner.staging_capacity();
    assert_eq!(inner.chunk_mut(), capacity - 3);
    assert_eq!(inner.remaining_mut(), capacity - 3);
}
