use dabctl::ringbuffer::RingBuffer;

#[test]
fn new_buffer_is_empty() {
    let rb: RingBuffer<u8> = RingBuffer::new(100);
    assert_eq!(rb.available_read(), 0);
    assert_eq!(rb.available_write(), 100);
}

#[test]
fn put_then_get_preserves_order_and_values() {
    let mut rb: RingBuffer<u8> = RingBuffer::new(100);
    assert_eq!(rb.put_data(&[1, 2, 3, 4, 5]), 5);
    assert_eq!(rb.available_read(), 5);
    let mut out = vec![0u8; 5];
    assert_eq!(rb.get_data(&mut out), 5);
    assert_eq!(out, [1, 2, 3, 4, 5]);
    assert_eq!(rb.available_read(), 0);
}

#[test]
fn put_data_drops_items_that_exceed_capacity() {
    let mut rb: RingBuffer<u8> = RingBuffer::new(3);
    assert_eq!(rb.put_data(&[1, 2, 3, 4, 5]), 3);
    assert_eq!(rb.available_read(), 3);
}

#[test]
fn get_data_returns_partial_result_when_buffer_is_short() {
    let mut rb: RingBuffer<u8> = RingBuffer::new(100);
    rb.put_data(&[1, 2]);
    let mut out = vec![0u8; 5];
    assert_eq!(rb.get_data(&mut out), 2);
    assert_eq!(&out[..2], &[1, 2]);
}

#[test]
fn flush_empties_the_buffer() {
    let mut rb: RingBuffer<u8> = RingBuffer::new(100);
    rb.put_data(&[1, 2, 3]);
    assert_eq!(rb.available_read(), 3);
    rb.flush();
    assert_eq!(rb.available_read(), 0);
}

#[test]
fn basic() {
    let rb: RingBuffer<u8> = RingBuffer::new(100);
    assert_eq!(rb.available_read(), 0);
    assert_eq!(rb.available_write(), 100);
}

#[test]
fn put_get() {
    let mut rb: RingBuffer<u8> = RingBuffer::new(100);
    let data = vec![1u8, 2, 3, 4, 5];
    assert_eq!(rb.put_data(&data), 5);
    assert_eq!(rb.available_read(), 5);
    let mut out = vec![0u8; 5];
    assert_eq!(rb.get_data(&mut out), 5);
    assert_eq!(out, vec![1, 2, 3, 4, 5]);
    assert_eq!(rb.available_read(), 0);
}

#[test]
fn overflow() {
    let mut rb: RingBuffer<u8> = RingBuffer::new(3);
    assert_eq!(rb.put_data(&[1, 2, 3, 4, 5]), 3);
    assert_eq!(rb.available_read(), 3);
}

#[test]
fn flush() {
    let mut rb: RingBuffer<u8> = RingBuffer::new(100);
    rb.put_data(&[1, 2, 3]);
    assert_eq!(rb.available_read(), 3);
    rb.flush();
    assert_eq!(rb.available_read(), 0);
}

#[test]
fn interleaved_writes_and_reads_keep_fifo_order() {
    let mut rb: RingBuffer<u8> = RingBuffer::new(4);
    assert_eq!(rb.put_data(&[1, 2, 3]), 3);
    let mut out = vec![0u8; 2];
    assert_eq!(rb.get_data(&mut out), 2);
    assert_eq!(out, vec![1, 2]);
    assert_eq!(rb.put_data(&[4, 5, 6, 7]), 3);
    assert_eq!(rb.available_write(), 0);
    let mut rest = vec![0u8; 8];
    assert_eq!(rb.get_data(&mut rest), 4);
    assert_eq!(&rest[..4], &[3, 4, 5, 6]);
}
