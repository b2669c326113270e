use ccgo::pty::{ReplayBuffer, WriteChannel};

#[test]
fn test_replay_buffer_truncation() {
    // Capacity 8; the child emits "ABCDEFGHIJ" then "K": the buffer holds
    // exactly the last 8 bytes of the output.
    let mut buf = ReplayBuffer::new(8);
    buf.append(&b"ABCDEFGHIJ".to_vec());
    buf.append(&b"K".to_vec());
    assert_eq!(buf.get_buffer(), b"DEFGHIJK".to_vec());
}

#[test]
fn test_replay_buffer_short_output() {
    let mut buf = ReplayBuffer::new(1024);
    buf.append(&b"hello ".to_vec());
    buf.append(&b"world".to_vec());
    assert_eq!(buf.get_buffer(), b"hello world".to_vec());
}

#[test]
fn test_replay_buffer_oversized_chunk() {
    let mut buf = ReplayBuffer::new(4);
    buf.append(&b"0123456789".to_vec());
    assert_eq!(buf.get_buffer(), b"6789".to_vec());
}

#[test]
fn test_replay_buffer_empty_and_zero_capacity() {
    let buf = ReplayBuffer::new(8);
    assert_eq!(buf.get_buffer(), Vec::<u8>::new());
    let mut z = ReplayBuffer::new(0);
    z.append(&b"data".to_vec());
    assert_eq!(z.get_buffer(), Vec::<u8>::new());
}

#[test]
fn test_writes_delivered_contiguously_in_order() {
    // Writes queued from several callers leave for the child whole and in
    // enqueue order.
    let mut ch = WriteChannel::new();
    ch.enqueue(b"first ".to_vec());
    ch.enqueue(b"second ".to_vec());
    ch.enqueue(b"third".to_vec());
    let w1 = ch.service_one().unwrap();
    assert_eq!(w1, b"first ".to_vec());
    let w2 = ch.service_one().unwrap();
    assert_eq!(w2, b"second ".to_vec());
    let w3 = ch.service_one().unwrap();
    assert_eq!(w3, b"third".to_vec());
    assert!(ch.service_one().is_none());
    assert_eq!(ch.delivered(), b"first second third".to_vec());
}
