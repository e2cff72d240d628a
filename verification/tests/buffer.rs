use pcap_parser::buffer::StagingBuffer;

#[test]
fn new_buffer_is_empty() {
    let buffer = StagingBuffer::with_capacity(10);
    assert_eq!(buffer.len(), 0);
    assert_eq!(buffer.capacity(), 10);
    assert_eq!(buffer.remaining_capacity(), 10);
    assert_eq!(buffer.writable_len(), 10);
    assert_eq!(buffer.readable(), &[] as &[u8]);
}

#[test]
fn appended_bytes_become_readable_in_order() {
    let mut buffer = StagingBuffer::with_capacity(10);
    assert_eq!(buffer.append(b"abcd"), 4);
    assert_eq!(buffer.append(b"ef"), 2);
    assert_eq!(buffer.readable(), b"abcdef");
    assert_eq!(buffer.len(), 6);
    assert_eq!(buffer.remaining_capacity(), 4);
}

#[test]
fn append_takes_no_more_than_fits() {
    let mut buffer = StagingBuffer::with_capacity(4);
    assert_eq!(buffer.append(b"abcdef"), 4);
    assert_eq!(buffer.readable(), b"abcd");
    assert_eq!(buffer.append(b"x"), 0);
    assert_eq!(buffer.readable(), b"abcd");
}

#[test]
fn consume_drops_bytes_from_the_head() {
    let mut buffer = StagingBuffer::with_capacity(16);
    buffer.append(b"abcdef");
    assert_eq!(buffer.consume(2), 2);
    assert_eq!(buffer.readable(), b"cdef");
    assert_eq!(buffer.consume(100), 4);
    assert_eq!(buffer.readable(), b"");
    assert_eq!(buffer.consume(1), 0);
}

#[test]
fn compaction_keeps_the_readable_bytes_and_frees_the_rest() {
    let mut buffer = StagingBuffer::with_capacity(16);
    buffer.append(b"abcdefgh");
    buffer.consume(3);
    let before = buffer.readable().to_vec();
    buffer.compact();
    assert_eq!(buffer.readable(), &before[..]);
    assert_eq!(buffer.writable_len(), 16 - 5);
    assert_eq!(buffer.remaining_capacity(), 16 - 5);
}

#[test]
fn consumed_space_is_reused_after_compaction() {
    let mut buffer = StagingBuffer::with_capacity(8);
    assert_eq!(buffer.append(b"abcdefgh"), 8);
    assert_eq!(buffer.consume(6), 6);
    buffer.compact();
    assert_eq!(buffer.append(b"ijklmn"), 6);
    assert_eq!(buffer.readable(), b"ghijklmn");
}

#[test]
fn growth_keeps_the_readable_bytes() {
    let mut buffer = StagingBuffer::with_capacity(4);
    buffer.append(b"abcd");
    assert!(!buffer.grow(4));
    assert!(!buffer.grow(2));
    assert_eq!(buffer.capacity(), 4);
    assert!(buffer.grow(9));
    assert_eq!(buffer.capacity(), 9);
    assert_eq!(buffer.readable(), b"abcd");
    assert_eq!(buffer.append(b"efghijk"), 5);
    assert_eq!(buffer.readable(), b"abcdefghi");
}

#[test]
fn buffer_of_no_capacity_takes_nothing() {
    let mut buffer = StagingBuffer::with_capacity(0);
    assert_eq!(buffer.append(b"a"), 0);
    assert_eq!(buffer.len(), 0);
    assert_eq!(buffer.consume(1), 0);
}
