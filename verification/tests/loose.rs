use bytes::Bytes;
use chunked_bytes::loosely::ChunkedBytes;

#[test]
fn loose_new_buffer_is_empty_with_default_chunk_size() {
    let buf = ChunkedBytes::new();
    assert!(buf.is_empty());
    assert!(!buf.has_remaining());
    assert_eq!(buf.chunk_size_hint(), 4096);
    assert_eq!(buf.remaining(), 0);
    assert_eq!(buf.chunk(), &[0u8; 0][..]);
    let with_profile = ChunkedBytes::with_profile(32, 4);
    assert_eq!(with_profile.chunk_size_hint(), 32);
    assert!(with_profile.is_empty());
    let by_default = ChunkedBytes::default();
    assert_eq!(by_default.chunk_size_hint(), 4096);
}

#[test]
fn loose_round_trip_of_mixed_writes() {
    for chunk_size in [1usize, 2, 3, 7, 8, 64, 4096] {
        let mut buf = ChunkedBytes::with_chunk_size_hint(chunk_size);
        let mut written: Vec<u8> = Vec::new();
        for round in 0..20u8 {
            let piece: Vec<u8> = (0..(round as usize % 7 + 1))
                .map(|i| round.wrapping_mul(31).wrapping_add(i as u8))
                .collect();
            if round % 3 == 0 {
                buf.put_bytes(Bytes::from(piece.clone()));
            } else {
                buf.put_slice(&piece);
            }
            written.extend_from_slice(&piece);
        }
        assert_eq!(buf.remaining(), written.len());
        let mut read: Vec<u8> = Vec::new();
        let mut step = 1usize;
        while buf.has_remaining() {
            let front = buf.chunk();
            assert!(!front.is_empty());
            let n = std::cmp::min(step, front.len());
            read.extend_from_slice(&front[..n]);
            buf.advance(n);
            step = step % 5 + 1;
        }
        assert_eq!(read, written);
        assert_eq!(buf.remaining(), 0);
    }
}

#[test]
fn loose_occupancy_is_written_less_read() {
    let mut buf = ChunkedBytes::with_chunk_size_hint(16);
    buf.put_slice(&[1u8; 10]);
    assert_eq!(buf.remaining(), 10);
    buf.put_bytes(Bytes::from(vec![2u8; 40]));
    assert_eq!(buf.remaining(), 50);
    buf.advance(7);
    assert_eq!(buf.remaining(), 43);
    buf.put_slice(&[3u8; 30]);
    assert_eq!(buf.remaining(), 73);
    buf.advance(43);
    assert_eq!(buf.remaining(), 30);
    buf.advance(30);
    assert_eq!(buf.remaining(), 0);
    assert!(buf.is_empty());
}

#[test]
fn loose_ingested_range_is_one_chunk_of_its_own_length() {
    let mut buf = ChunkedBytes::with_chunk_size_hint(100);
    buf.put_bytes(Bytes::from(vec![0u8; 10000]));
    let mut chunks = buf.drain_chunks();
    assert_eq!(chunks.len(), 1);
    assert_eq!(chunks.size_hint(), (1, Some(1)));
    assert_eq!(chunks.next().map(|c| c.len()), Some(10000));
    assert!(chunks.next().is_none());
}

#[test]
fn loose_ingestion_is_zero_copy() {
    let range = Bytes::from(vec![7u8; 300]);
    let ptr = range.as_ptr();
    let mut buf = ChunkedBytes::with_chunk_size_hint(16);
    buf.put_slice(b"head");
    buf.put_bytes(range.clone());
    let mut chunks = buf.into_chunks();
    assert_eq!(chunks.len(), 2);
    let head = chunks.next().expect("the staged bytes come first");
    assert_eq!(&head[..], b"head");
    let last = chunks.next().expect("the range comes last");
    assert_eq!(last.as_ptr(), ptr);
    assert_eq!(last.len(), 300);
    assert_eq!(last, range);
    assert!(chunks.next().is_none());
}

#[test]
fn loose_empty_range_is_not_queued() {
    let mut buf = ChunkedBytes::with_chunk_size_hint(16);
    buf.put_slice(b"abc");
    buf.put_bytes(Bytes::new());
    assert_eq!(buf.drain_chunks().len(), 0);
    assert_eq!(buf.chunk(), b"abc");
    assert_eq!(buf.remaining(), 3);
}

#[test]
fn loose_second_drain_yields_nothing() {
    let mut buf = ChunkedBytes::with_chunk_size_hint(4);
    buf.put_slice(&[9u8; 11]);
    buf.put_bytes(Bytes::from_static(b"tail"));
    let mut first = buf.drain_chunks();
    let mut count = 0;
    while first.next().is_some() {
        count += 1;
    }
    assert!(count >= 2);
    let mut second = buf.drain_chunks();
    assert_eq!(second.len(), 0);
    assert!(second.next().is_none());
}

#[test]
fn loose_drain_removes_chunks_even_if_not_consumed() {
    let mut buf = ChunkedBytes::with_chunk_size_hint(4);
    buf.put_bytes(Bytes::from_static(b"one"));
    buf.put_bytes(Bytes::from_static(b"two"));
    buf.put_slice(b"x");
    {
        let mut chunks = buf.drain_chunks();
        assert_eq!(chunks.next().as_deref(), Some(&b"one"[..]));
    }
    assert_eq!(buf.remaining(), 1);
    assert_eq!(buf.chunk(), b"x");
}

#[test]
fn loose_commit_flushes_at_the_chunk_size() {
    let mut buf = ChunkedBytes::with_chunk_size_hint(8);
    buf.advance_mut(&[1u8; 7]);
    assert_eq!(buf.drain_chunks().len(), 0);
    buf.advance_mut(&[2u8; 1]);
    let mut chunks = buf.drain_chunks();
    assert_eq!(chunks.len(), 1);
    assert_eq!(chunks.next().as_deref(), Some(&[1u8, 1, 1, 1, 1, 1, 1, 2][..]));
    assert!(buf.is_empty());
}

#[test]
fn loose_flush_splits_off_staged_bytes_only_once() {
    let mut buf = ChunkedBytes::with_chunk_size_hint(64);
    buf.flush();
    assert_eq!(buf.drain_chunks().len(), 0);
    buf.put_slice(b"abc");
    buf.flush();
    buf.flush();
    let mut chunks = buf.drain_chunks();
    assert_eq!(chunks.len(), 1);
    assert_eq!(chunks.next().as_deref(), Some(&b"abc"[..]));
}

#[test]
fn loose_gather_fills_chunks_then_staging() {
    let mut buf = ChunkedBytes::with_chunk_size_hint(64);
    buf.put_bytes(Bytes::from_static(b"first"));
    buf.put_bytes(Bytes::from_static(b"second"));
    buf.put_slice(b"staged");
    let filler: &[u8] = b"untouched";

    let mut wide = [filler; 5];
    assert_eq!(buf.chunks_vectored(&mut wide), 3);
    assert_eq!(wide[0], b"first");
    assert_eq!(wide[1], b"second");
    assert_eq!(wide[2], b"staged");
    assert_eq!(wide[3], b"untouched");
    assert_eq!(wide[4], b"untouched");

    let mut narrow = [filler; 2];
    assert_eq!(buf.chunks_vectored(&mut narrow), 2);
    assert_eq!(narrow[0], b"first");
    assert_eq!(narrow[1], b"second");

    let mut none: [&[u8]; 0] = [];
    assert_eq!(buf.chunks_vectored(&mut none), 0);

    buf.advance(17);
    let mut after = [filler; 2];
    assert_eq!(buf.chunks_vectored(&mut after), 0);
    assert_eq!(after[0], b"untouched");
}

#[test]
fn loose_gather_and_advance_round_trip() {
    let mut buf = ChunkedBytes::with_chunk_size_hint(5);
    let written: Vec<u8> = (0..=200u8).collect();
    buf.put_slice(&written[..90]);
    buf.put_bytes(Bytes::copy_from_slice(&written[90..150]));
    buf.put_slice(&written[150..]);
    let mut read: Vec<u8> = Vec::new();
    loop {
        let filler: &[u8] = &[];
        let mut slices = [filler; 4];
        let n = buf.chunks_vectored(&mut slices);
        if n == 0 {
            break;
        }
        let mut total = 0;
        for slice in &slices[..n] {
            read.extend_from_slice(slice);
            total += slice.len();
        }
        buf.advance(total);
    }
    assert_eq!(read, written);
}

#[test]
fn loose_copy_to_bytes_takes_from_the_front() {
    let mut buf = ChunkedBytes::with_chunk_size_hint(64);
    let first = Bytes::from_static(b"hello ");
    buf.put_bytes(first.clone());
    buf.put_bytes(Bytes::from_static(b"wide "));
    buf.put_slice(b"world");

    let head = buf.copy_to_bytes(2);
    assert_eq!(&head[..], b"he");
    assert_eq!(head.as_ptr(), first.as_ptr());
    assert_eq!(buf.remaining(), 14);

    let joined = buf.copy_to_bytes(11);
    assert_eq!(&joined[..], b"llo wide wo");
    assert_eq!(buf.chunk(), b"rld");

    let rest = buf.copy_to_bytes(100);
    assert_eq!(&rest[..], b"rld");
    assert!(buf.is_empty());
    assert_eq!(buf.copy_to_bytes(3).len(), 0);
}

#[test]
fn loose_copy_to_bytes_hands_out_a_whole_chunk_itself() {
    let mut buf = ChunkedBytes::with_chunk_size_hint(64);
    let first = Bytes::from(vec![5u8; 10]);
    buf.put_bytes(first.clone());
    buf.put_bytes(Bytes::from_static(b"next"));
    let taken = buf.copy_to_bytes(10);
    assert_eq!(taken.as_ptr(), first.as_ptr());
    assert_eq!(taken.len(), 10);
    assert_eq!(buf.chunk(), b"next");
}

#[test]
fn loose_to_bytes_joins_everything() {
    let mut buf = ChunkedBytes::with_chunk_size_hint(64);
    assert_eq!(buf.to_bytes().len(), 0);
    buf.put_slice(b"only staged");
    assert_eq!(&buf.to_bytes()[..], b"only staged");
    assert!(buf.is_empty());

    let single = Bytes::from(vec![1u8; 33]);
    buf.put_bytes(single.clone());
    let taken = buf.to_bytes();
    assert_eq!(taken.as_ptr(), single.as_ptr());
    assert!(buf.is_empty());

    buf.put_bytes(Bytes::from_static(b"ab"));
    buf.put_bytes(Bytes::from_static(b"cd"));
    buf.put_slice(b"ef");
    assert_eq!(&buf.to_bytes()[..], b"abcdef");
    assert!(buf.is_empty());
    assert_eq!(buf.drain_chunks().len(), 0);
}

#[test]
fn loose_write_str_appends_the_text() {
    let mut buf = ChunkedBytes::with_chunk_size_hint(4);
    assert_eq!(buf.write_str("I \u{1F5A4} bytes"), Ok(()));
    assert_eq!(buf.write_str(""), Ok(()));
    assert_eq!(&buf.to_bytes()[..], "I \u{1F5A4} bytes".as_bytes());
}

#[test]
fn loose_write_str_refuses_an_unusable_chunk_size() {
    let mut buf = ChunkedBytes::with_chunk_size_hint(usize::MAX);
    assert_eq!(buf.write_str("text"), Err(chunked_bytes::chunked::WriteError));
    assert!(buf.is_empty());
    let mut edge = ChunkedBytes::with_chunk_size_hint(usize::MAX / 4 - 63);
    assert_eq!(edge.write_str("abcd"), Err(chunked_bytes::chunked::WriteError));
    assert_eq!(edge.write_str(""), Err(chunked_bytes::chunked::WriteError));
    assert_eq!(edge.remaining(), 0);
}

#[test]
fn loose_staging_capacity_stays_near_the_chunk_size() {
    let chunk_size = 64usize;
    let mut buf = ChunkedBytes::with_chunk_size_hint(chunk_size);
    for round in 0..50 {
        buf.put_slice(&vec![round as u8; chunk_size]);
        let mut chunks = buf.drain_chunks();
        assert_eq!(chunks.len(), 1);
        assert_eq!(chunks.next().map(|c| c.len()), Some(chunk_size));
        assert!(buf.staging_capacity() <= chunk_size + chunk_size / 2);
    }
}

#[test]
fn loose_writable_view_is_never_empty() {
    let mut buf = ChunkedBytes::with_chunk_size_hint(0);
    assert!(buf.chunk_mut() > 0);
    buf.put_slice(b"abc");
    assert_eq!(buf.remaining(), 3);
    let mut small = ChunkedBytes::with_chunk_size_hint(1);
    small.put_slice(b"xyz");
    assert!(small.chunk_mut() > 0);
    assert_eq!(&small.to_bytes()[..], b"xyz");
}

#[test]
fn loose_remaining_mut_is_the_room_in_staging() {
    let mut buf = ChunkedBytes::with_chunk_size_hint(8);
    assert_eq!(buf.remaining_mut(), 0);
    let view = buf.chunk_mut();
    assert_eq!(buf.remaining_mut(), view);
    buf.advance_mut(&[0u8; 3]);
    assert_eq!(buf.remaining_mut(), view - 3);
    assert_eq!(buf.staging_capacity(), view);
}

#[test]
fn loose_view_of_a_full_region_follows_the_plan() {
    let mut keeps = ChunkedBytes::with_chunk_size_hint(64);
    let view = keeps.chunk_mut();
    keeps.advance_mut(&vec![3u8; 10]);
    assert_eq!(keeps.chunk_mut(), view - 10);
    assert_eq!(keeps.drain_chunks().len(), 0);
    assert_eq!(keeps.remaining(), 10);

    let mut splits = ChunkedBytes::with_chunk_size_hint(8);
    let view = splits.chunk_mut();
    splits.advance_mut(&vec![4u8; view - 1]);
    splits.advance(view - 7);
    splits.advance_mut(&[5u8; 1]);
    assert_eq!(splits.staging_len(), 7);
    assert_eq!(splits.staging_len(), splits.staging_capacity());
    assert!(splits.chunk_mut() >= 8);
    let mut chunks = splits.drain_chunks();
    assert_eq!(chunks.len(), 1);
    assert_eq!(chunks.next().map(|c| c.len()), Some(7));
    assert!(splits.is_empty());
}

#[test]
fn loose_view_for_a_reported_capacity_with_room() {
    let mut buf = ChunkedBytes::with_chunk_size_hint(8);
    buf.put_slice(b"abc");
    assert_eq!(buf.chunk_mut_with(7), 4);
    assert_eq!(buf.chunk_mut_with(4), 1);
    assert_eq!(buf.chunk_mut_with(1000), 997);
    assert_eq!(buf.staging_len(), 3);
    assert_eq!(buf.drain_chunks().len(), 0);
    assert_eq!(buf.chunk(), &b"abc"[..]);
}

#[test]
fn loose_view_for_a_reported_capacity_that_is_used_up() {
    let mut keeps = ChunkedBytes::with_chunk_size_hint(8);
    keeps.put_slice(b"abc");
    let view = keeps.chunk_mut_with(3);
    assert!(view >= 5);
    assert_eq!(view, keeps.staging_capacity() - 3);
    assert_eq!(keeps.staging_len(), 3);
    assert_eq!(keeps.drain_chunks().len(), 0);
    assert_eq!(keeps.chunk(), &b"abc"[..]);

    let mut splits = ChunkedBytes::with_chunk_size_hint(8);
    splits.put_slice(b"abcdef");
    let view = splits.chunk_mut_with(6);
    assert!(view >= 8);
    assert_eq!(view, splits.staging_capacity());
    assert_eq!(splits.staging_len(), 0);
    assert_eq!(splits.remaining(), 6);
    let mut chunks = splits.drain_chunks();
    assert_eq!(chunks.len(), 1);
    assert_eq!(chunks.next().as_deref(), Some(&b"abcdef"[..]));
}

#[test]
fn loose_view_is_found_from_the_capacity_of_the_region() {
    let mut buf = ChunkedBytes::with_chunk_size_hint(64);
    let first = buf.chunk_mut();
    assert!(first >= 64);
    assert_eq!(first, buf.staging_capacity());
    buf.advance_mut(&[7u8; 10]);
    let capacity = buf.staging_capacity();
    assert_eq!(buf.chunk_mut(), capacity - 10);
    assert_eq!(buf.chunk_mut_with(capacity), capacity - 10);
}
