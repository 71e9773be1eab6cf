//! Ordering and non-blocking behaviour of the byte queue.

use jfconsole::ring_queue::{ring_buf_queue, RingBufQueue};

fn drain(q: &mut RingBufQueue) -> Vec<u8> {
    let mut all = Vec::new();
    loop {
        let chunk = q.pop();
        if chunk.is_empty() {
            break;
        }
        all.extend_from_slice(&chunk);
    }
    all
}

fn pushed_out_equals_in(capacity: usize, payloads: &[&[u8]]) {
    let mut q = ring_buf_queue(capacity);
    let mut expected: Vec<u8> = Vec::new();
    for p in payloads {
        q.push(p);
        expected.extend_from_slice(p);
    }
    assert_eq!(drain(&mut q), expected);
}

#[test]
fn order_preserved_small_capacity() {
    pushed_out_equals_in(1, &[b"a", b"bc", b"def", b"", b"ghij"]);
}

#[test]
fn order_preserved_capacity_one_large_payloads() {
    pushed_out_equals_in(1, &[b"hello world", b"second payload larger than the ring"]);
}

#[test]
fn order_preserved_medium_capacity() {
    pushed_out_equals_in(8, &[b"12345", b"6789abcdef", b"", b"g", b"hijklmnopqrstuvwxyz"]);
}

#[test]
fn order_preserved_capacity_larger_than_data() {
    pushed_out_equals_in(1024, &[b"tiny", b"bits", b"of", b"data"]);
}

#[test]
fn order_preserved_interleaved_push_pop() {
    let mut q = ring_buf_queue(4);
    let mut out: Vec<u8> = Vec::new();
    q.push(b"abcdef");
    out.extend_from_slice(&q.pop());
    q.push(b"ghi");
    q.push(b"jklmnop");
    out.extend_from_slice(&q.pop());
    q.push(b"qrstuvwxyz");
    out.extend_from_slice(&drain(&mut q));
    assert_eq!(out, b"abcdefghijklmnopqrstuvwxyz".to_vec());
}

#[test]
fn push_never_blocks_when_full() {
    // The ring is tiny and never drained while thousands of chunks arrive:
    // every push must return at once and no byte may be lost or reordered.
    let mut q = ring_buf_queue(2);
    let mut expected = Vec::new();
    for i in 0..5000u32 {
        let chunk = [(i % 251) as u8, (i % 7) as u8, (i % 13) as u8];
        q.push(&chunk);
        expected.extend_from_slice(&chunk);
    }
    assert_eq!(drain(&mut q), expected);
}

#[test]
fn pop_empty_returns_empty() {
    let mut q = ring_buf_queue(16);
    assert!(q.pop().is_empty());
    q.push(b"x");
    assert_eq!(q.pop(), b"x".to_vec());
    assert!(q.pop().is_empty());
}

#[test]
fn flush_keeps_contents() {
    let mut q = ring_buf_queue(2);
    q.push(b"abcdefgh");
    q.flush();
    q.flush();
    assert_eq!(drain(&mut q), b"abcdefgh".to_vec());
}
