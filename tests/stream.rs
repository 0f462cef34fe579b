use mpv_remote::stream::ByteQueue;
use mpv_remote::wire::{push_u16_be, push_u32_be, push_u64_be, read_u16_be, read_u32_be, read_u64_be};

#[test]
fn queue_keeps_arrival_order() {
    let mut q = ByteQueue::new();
    assert_eq!(q.len(), 0);
    q.extend(&[1, 2, 3]);
    assert_eq!(q.take(2), vec![1, 2]);
    q.extend(&[4]);
    assert_eq!(q.peek(0), 3);
    assert_eq!(q.peek(1), 4);
    q.skip(1);
    assert_eq!(q.take(1), vec![4]);
    assert_eq!(q.len(), 0);
    q.extend(&[5, 6]);
    assert_eq!(q.take(2), vec![5, 6]);
}

#[test]
fn network_byte_order() {
    let mut out = Vec::new();
    push_u16_be(&mut out, 0x0102);
    push_u32_be(&mut out, 0x03040506);
    push_u64_be(&mut out, 0x0708090a0b0c0d0e);
    assert_eq!(out, (1u8..=14).collect::<Vec<u8>>());
    assert_eq!(read_u16_be(&out, 0), 0x0102);
    assert_eq!(read_u32_be(&out, 2), 0x03040506);
    assert_eq!(read_u64_be(&out, 6), 0x0708090a0b0c0d0e);
}
