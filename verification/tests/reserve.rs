use chunked_bytes::{loosely, strictly, ChunkedBytes};

#[test]
fn tests_reserve_does_not_grow_staging_buffer() {
    {
        let mut buf = loosely::ChunkedBytes::with_chunk_size_hint(8);
        let cap = buf.chunk_mut();
        assert!(cap >= 8);

        buf.put_slice(&vec![0; cap][..]);
        assert_eq!(buf.chunk_mut(), cap);
        {
            let mut chunks = buf.drain_chunks();
            let chunk = chunks.next().expect("expected a chunk to be flushed");
            assert_eq!(chunk.len(), cap);
            assert!(chunks.next().is_none());
        }

        buf.put_slice(&vec![0; cap - 4][..]);
        buf.advance(cap - 6);
        buf.put_slice(&[0; 4][..]);
        assert_eq!(buf.chunk_mut(), cap);
        {
            let mut chunks = buf.drain_chunks();
            let chunk = chunks.next().expect("expected a chunk to be flushed");
            assert_eq!(chunk.len(), 6);
            assert!(chunks.next().is_none());
        }

        buf.put_slice(&vec![0; cap - 5][..]);
        buf.advance(cap - 5);
        buf.put_slice(&[0; 5][..]);
        assert_eq!(buf.chunk_mut(), cap - 5);
        assert_eq!(buf.staging_capacity(), cap);
        assert!(
            buf.drain_chunks().next().is_none(),
            "expected no chunks to be flushed"
        );
    }
    {
        let mut buf = strictly::ChunkedBytes::with_chunk_size_limit(8);
        let cap = buf.chunk_mut();
        assert!(cap >= 8);

        buf.put_slice(&vec![0; cap][..]);
        assert_eq!(buf.chunk_mut(), cap);
        {
            let mut chunks = buf.drain_chunks();
            let chunk = chunks.next().expect("expected a chunk to be flushed");
            assert_eq!(chunk.len(), cap);
            assert!(chunks.next().is_none());
        }

        buf.put_slice(&vec![0; cap - 4][..]);
        buf.advance(cap - 6);
        buf.put_slice(&[0; 4][..]);
        assert_eq!(buf.chunk_mut(), cap);
        {
            let mut chunks = buf.drain_chunks();
            let chunk = chunks.next().expect("expected a chunk to be flushed");
            assert_eq!(chunk.len(), 6);
            assert!(chunks.next().is_none());
        }

        buf.put_slice(&vec![0; cap - 5][..]);
        buf.advance(cap - 5);
        buf.put_slice(&[0; 5][..]);
        assert_eq!(buf.chunk_mut(), cap - 5);
        assert_eq!(buf.staging_capacity(), cap);
        assert!(
            buf.drain_chunks().next().is_none(),
            "expected no chunks to be flushed"
        );
    }
}

#[test]
fn chunked_bytes_reserve_does_not_grow_staging_buffer() {
    let mut buf = ChunkedBytes::with_chunk_size_hint(8);
    let cap = buf.chunk_mut();
    assert!(cap >= 8);

    buf.put_slice(&vec![0; cap][..]);
    assert_eq!(buf.chunk_mut(), cap);
    {
        let mut chunks = buf.drain_chunks();
        let chunk = chunks.next().expect("expected a chunk to be flushed");
        assert_eq!(chunk.len(), cap);
        assert!(chunks.next().is_none());
    }

    buf.put_slice(&vec![0; cap - 4][..]);
    buf.advance(cap - 6);
    buf.put_slice(&[0; 4][..]);
    assert_eq!(buf.chunk_mut(), cap);
    {
        let mut chunks = buf.drain_chunks();
        let chunk = chunks.next().expect("expected a chunk to be flushed");
        assert_eq!(chunk.len(), 6);
        assert!(chunks.next().is_none());
    }

    buf.put_slice(&vec![0; cap - 5][..]);
    buf.advance(cap - 5);
    buf.put_slice(&[0; 5][..]);
    assert_eq!(buf.chunk_mut(), cap - 5);
    assert_eq!(buf.staging_capacity(), cap);
    assert!(
        buf.drain_chunks().next().is_none(),
        "expected no chunks to be flushed"
    );
}
