use modem_sockets::RingBuffer;

#[test]
fn buffer_starts_empty() {
    let b: RingBuffer<u8, 4> = RingBuffer::new();
    assert_eq!(b.len(), 0);
    assert_eq!(b.capacity(), 4);
    assert_eq!(b.window(), 4);
    assert!(b.is_empty());
    assert!(!b.is_full());
}

#[test]
fn enqueue_dequeue_single() {
    let mut b: RingBuffer<u8, 2> = RingBuffer::new();
    assert!(b.enqueue(7));
    assert!(b.enqueue(9));
    assert!(!b.enqueue(11));
    assert!(b.is_full());
    assert_eq!(b.dequeue(), Some(7));
    assert_eq!(b.dequeue(), Some(9));
    assert_eq!(b.dequeue(), None);
}

#[test]
fn peek_front_is_nondestructive() {
    let mut b: RingBuffer<u8, 4> = RingBuffer::new();
    assert_eq!(b.peek_front(), None);
    b.enqueue(3);
    b.enqueue(5);
    assert_eq!(b.peek_front(), Some(3));
    assert_eq!(b.peek_front(), Some(3));
    assert_eq!(b.len(), 2);
}

#[test]
fn enqueue_slice_clips_at_window() {
    let mut b: RingBuffer<u8, 4> = RingBuffer::new();
    let n = b.enqueue_slice(&[1, 2, 3, 4, 5, 6]);
    assert_eq!(n, 4);
    assert!(b.is_full());
    let n2 = b.enqueue_slice(&[7]);
    assert_eq!(n2, 0);
}

#[test]
fn dequeue_slice_clips_at_length() {
    let mut b: RingBuffer<u8, 4> = RingBuffer::new();
    b.enqueue_slice(&[10, 20]);
    let mut out = [0u8; 4];
    let n = b.dequeue_slice(&mut out);
    assert_eq!(n, 2);
    assert_eq!(&out[..2], &[10, 20]);
    assert!(b.is_empty());
}

#[test]
fn buffer_wraparound_roundtrip() {
    // Drive the cursors around the end of the storage several times and
    // check that everything read equals everything written, in order.
    let mut b: RingBuffer<u8, 4> = RingBuffer::new();
    let mut written: Vec<u8> = Vec::new();
    let mut read: Vec<u8> = Vec::new();
    let mut next: u8 = 0;
    for round in 0..10 {
        let burst = 1 + (round % 3) as usize;
        let mut chunk: Vec<u8> = Vec::new();
        for _ in 0..burst {
            chunk.push(next);
            next = next.wrapping_add(1);
        }
        let wrote = b.enqueue_slice(&chunk);
        written.extend_from_slice(&chunk[..wrote]);
        let mut out = vec![0u8; 2];
        let got = b.dequeue_slice(&mut out);
        read.extend_from_slice(&out[..got]);
    }
    let mut rest = vec![0u8; 4];
    let got = b.dequeue_slice(&mut rest);
    read.extend_from_slice(&rest[..got]);
    assert_eq!(read, written);
}

#[test]
fn clear_discards_everything() {
    let mut b: RingBuffer<u8, 3> = RingBuffer::new();
    b.enqueue_slice(&[1, 2, 3]);
    b.clear();
    assert!(b.is_empty());
    assert_eq!(b.dequeue(), None);
    assert_eq!(b.enqueue_slice(&[4, 5]), 2);
    assert_eq!(b.dequeue(), Some(4));
}

#[test]
fn get_allocated_reads_without_dequeuing() {
    let mut b: RingBuffer<u8, 4> = RingBuffer::new();
    b.enqueue_slice(&[1, 2, 3]);
    let s = b.get_allocated(0, 2);
    assert_eq!(s, &[1, 2]);
    let s2 = b.get_allocated(1, 10);
    assert_eq!(s2, &[2, 3]);
    assert_eq!(b.len(), 3);
}

#[test]
fn dequeue_many_with_consumes_reported_amount() {
    let mut b: RingBuffer<u8, 4> = RingBuffer::new();
    b.enqueue_slice(&[1, 2, 3]);
    let seen = b.dequeue_many_with(|s: &[u8]| (2, s.to_vec()));
    assert_eq!(seen, vec![1, 2, 3]);
    assert_eq!(b.len(), 1);
    assert_eq!(b.dequeue(), Some(3));
}

#[test]
fn dequeue_many_with_wrapping_sees_both_runs() {
    let mut b: RingBuffer<u8, 4> = RingBuffer::new();
    // Advance the read cursor so the content wraps.
    b.enqueue_slice(&[1, 2, 3]);
    let mut out = [0u8; 2];
    b.dequeue_slice(&mut out);
    b.enqueue_slice(&[4, 5, 6]);
    // Content is now [3, 4, 5, 6] with the cursor wrapped.
    let mut gathered: Vec<u8> = Vec::new();
    let n = b.dequeue_many_with_wrapping(|a: &[u8], rest: Option<&[u8]>| {
        gathered.extend_from_slice(a);
        if let Some(r) = rest {
            gathered.extend_from_slice(r);
        }
        (gathered.len(), ())
    });
    assert_eq!(gathered, vec![3, 4, 5, 6]);
    let _ = n;
    assert!(b.is_empty());
}

#[test]
fn dequeue_many_drops_from_the_head() {
    let mut b: RingBuffer<u8, 4> = RingBuffer::new();
    b.enqueue_slice(&[9, 8, 7]);
    assert_eq!(b.dequeue_many(2), 2);
    assert_eq!(b.dequeue(), Some(7));
    assert_eq!(b.dequeue_many(5), 0);
}
