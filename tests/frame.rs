use mpv_remote::error::{ProtocolError, WsError};
use mpv_remote::frame::{Frame, OpCode};
use mpv_remote::mask::mask;
use mpv_remote::message::{get_message, Message, MessageType};
use mpv_remote::stream::ByteQueue;

fn read_all(frame: &mut Frame, src: &mut ByteQueue) -> Vec<u8> {
    let mut out = Vec::new();
    loop {
        let chunk = frame.read(src, 5);
        if chunk.is_empty() {
            break;
        }
        out.extend_from_slice(&chunk);
    }
    out
}

#[test]
fn frame_deserialize() {
    let frame_bin = vec![
        0b10000010, // fin = 1, opcode = 2 (binary)
        0b00000100, // mask = 0, payload_len = 4
        1, 2, 3, 4, // payload
    ];
    let mut data = ByteQueue::from_vec(frame_bin);
    let frame = Frame::deserialize(&mut data).unwrap();
    assert!(frame.fin == true);
    assert!(frame.opcode == OpCode::Binary);
    assert!(frame.masking_key == None);
    assert!(frame.payload_len == 4);
}

#[test]
fn frame_serialize() {
    let s = "hello world";
    let frame = Frame::new(true, OpCode::Text, s.len() as u64, None);
    let buf = frame.serialize(s.as_bytes());
    println!("{:#?}", buf);
    let mut r = ByteQueue::from_vec(buf);
    let mut f = Frame::deserialize(&mut r).unwrap();
    println!("{:#?}", f);
    assert_eq!(f, frame);
    assert_eq!(read_all(&mut f, &mut r), s.as_bytes().to_vec());
}

#[test]
fn frame_tcp_stream_no_mask() {
    const PAYLOAD_STR: &str = "test payload";
    let send_frame = Frame::new(true, OpCode::Text, PAYLOAD_STR.len() as u64, None);
    let mut stream = ByteQueue::from_vec(send_frame.serialize(PAYLOAD_STR.as_bytes()));
    let mut out_frame = Frame::deserialize(&mut stream).unwrap();
    println!("{:#?}", out_frame);
    let buf = String::from_utf8(read_all(&mut out_frame, &mut stream)).unwrap();
    assert_eq!(buf, PAYLOAD_STR);
}

#[test]
fn frame_tcp_stream_mask() {
    const PAYLOAD_STR: &str = "test payload";
    let send_frame = Frame::new(true, OpCode::Text, PAYLOAD_STR.len() as u64, Some(0xa3ff0792 as u32));
    let wire = send_frame.serialize(PAYLOAD_STR.as_bytes());
    assert_ne!(&wire[6..], PAYLOAD_STR.as_bytes());
    let mut stream = ByteQueue::from_vec(wire);
    let mut out_frame = Frame::deserialize(&mut stream).unwrap();
    println!("{:#?}", out_frame);
    let buf = String::from_utf8(read_all(&mut out_frame, &mut stream)).unwrap();
    assert_eq!(buf, PAYLOAD_STR);
}

#[test]
fn round_trip_every_opcode_and_mask() {
    let payload: Vec<u8> = (0u8..=200).collect();
    for op in [OpCode::Cont, OpCode::Text, OpCode::Binary, OpCode::Close, OpCode::Ping, OpCode::Pong] {
        for fin in [true, false] {
            for key in [None, Some(0x01020304u32), Some(0xffff_ffffu32)] {
                let f = Frame::new(fin, op, payload.len() as u64, key);
                let mut wire = f.serialize(&payload);
                wire.extend_from_slice(&[9, 9, 9]);
                let mut q = ByteQueue::from_vec(wire);
                let mut g = Frame::deserialize(&mut q).unwrap();
                assert_eq!(g, f);
                assert_eq!(g.read(&mut q, 1000), payload);
                assert_eq!(q.len(), 3);
            }
        }
    }
}

#[test]
fn mask_is_an_involution() {
    let bytes: Vec<u8> = b"any byte sequence at all".to_vec();
    for key in [0u32, 0x37fa213d, 0xa3ff0792] {
        for offset in [0u64, 1, 2, 3, 7] {
            let once = mask(&bytes, key, offset);
            assert_eq!(mask(&once, key, offset), bytes);
        }
    }
    assert_eq!(mask(&[0, 0, 0, 0, 0], 0x01020304, 0), vec![1, 2, 3, 4, 1]);
    assert_eq!(mask(&[0, 0, 0], 0x01020304, 3), vec![4, 1, 2]);
}

#[test]
fn masked_payload_read_in_small_chunks() {
    let payload = b"Hello, chunked world!".to_vec();
    let key = 0x37fa213d;
    let f = Frame::new(true, OpCode::Binary, payload.len() as u64, Some(key));
    let mut q = ByteQueue::from_vec(f.serialize(&payload));
    let mut g = Frame::deserialize(&mut q).unwrap();
    let mut got = Vec::new();
    for size in [1usize, 2, 3, 5, 100] {
        got.extend_from_slice(&g.read(&mut q, size));
    }
    assert_eq!(got, payload);
    assert_eq!(g.bytes_read, payload.len() as u64);
}

fn header_of(len: u64) -> Vec<u8> {
    Frame::new(true, OpCode::Binary, len, None).encode_header()
}

#[test]
fn length_tier_boundaries() {
    assert_eq!(header_of(0), vec![0x82, 0]);
    assert_eq!(header_of(125), vec![0x82, 125]);
    assert_eq!(header_of(126), vec![0x82, 126, 0x00, 0x7e]);
    assert_eq!(header_of(65535), vec![0x82, 126, 0xff, 0xff]);
    assert_eq!(header_of(65536), vec![0x82, 127, 0, 0, 0, 0, 0, 1, 0, 0]);
    for len in [0u64, 125, 126, 65535, 65536, u64::MAX] {
        let mut q = ByteQueue::from_vec(header_of(len));
        let f = Frame::deserialize(&mut q).unwrap();
        assert_eq!(f.payload_len, len);
        assert_eq!(q.len(), 0);
    }
    let masked = Frame::new(false, OpCode::Text, 126, Some(0xdeadbeef)).encode_header();
    assert_eq!(masked, vec![0x01, 0xfe, 0x00, 0x7e, 0xde, 0xad, 0xbe, 0xef]);
}

#[test]
fn illegal_opcode_is_a_protocol_error() {
    let mut q = ByteQueue::from_vec(vec![0x83, 0x03, b'a', b'b', b'c']);
    let r = Frame::deserialize(&mut q);
    assert_eq!(r, Err(WsError::Protocol(ProtocolError::IllegalOpcode(3))));
    assert!(r.unwrap_err().is_protocol());
    assert_eq!(q.len(), 5);
    assert_eq!(OpCode::try_from(0x3u8), Err(ProtocolError::IllegalOpcode(3)));
    assert_eq!(OpCode::try_from(0xAu8), Ok(OpCode::Pong));
}

#[test]
fn short_header_is_end_of_data() {
    let mut q = ByteQueue::from_vec(vec![0x81]);
    assert_eq!(Frame::deserialize(&mut q), Err(WsError::UnexpectedEof));
    let mut q = ByteQueue::from_vec(vec![0x81, 0xfe, 0x00]);
    assert_eq!(Frame::deserialize(&mut q), Err(WsError::UnexpectedEof));
    assert_eq!(q.len(), 3);
    assert!(!WsError::UnexpectedEof.is_protocol());
}

#[test]
fn close_message_encodes_status_first() {
    let msg = Message::close(1000, "bye");
    let wire = mpv_remote::message::encode_message(&msg, None);
    assert_eq!(wire, vec![0x88, 5, 0x03, 0xE8, b'b', b'y', b'e']);
    let mut q = ByteQueue::from_vec(wire);
    let mut m = get_message(&mut q).unwrap();
    assert_eq!(m.kind, MessageType::Close(1000));
    assert_eq!(m.remaining(), 3);
    assert_eq!(m.read_to_end(&mut q), b"bye".to_vec());
}

#[test]
fn reading_past_a_message_leaves_the_next_frame_intact() {
    let first = Frame::new(true, OpCode::Text, 3, Some(0x11223344)).serialize(b"one");
    let second = Frame::new(true, OpCode::Binary, 3, None).serialize(&[7, 8, 9]);
    let mut wire = first;
    wire.extend_from_slice(&second);
    let mut q = ByteQueue::from_vec(wire);
    let mut m = get_message(&mut q).unwrap();
    assert_eq!(m.kind, MessageType::Text);
    assert_eq!(m.read(&mut q, 100), b"one".to_vec());
    assert_eq!(m.read(&mut q, 100), Vec::<u8>::new());
    assert_eq!(q.len(), 5);
    let mut n = get_message(&mut q).unwrap();
    assert_eq!(n.kind, MessageType::Binary);
    assert_eq!(n.read_to_end(&mut q), vec![7, 8, 9]);
}

#[test]
fn malformed_close_and_continuation_are_rejected() {
    let mut q = ByteQueue::from_vec(vec![0x88, 0x01, 0x03]);
    assert_eq!(get_message(&mut q).unwrap_err(), WsError::Protocol(ProtocolError::MalformedClose));
    assert_eq!(q.len(), 3);
    let mut q = ByteQueue::from_vec(vec![0x00, 0x01, 0x41]);
    assert_eq!(
        get_message(&mut q).unwrap_err(),
        WsError::Protocol(ProtocolError::UnsupportedContinuation)
    );
    let mut q = ByteQueue::from_vec(vec![0x88, 0x02, 0x03]);
    assert_eq!(get_message(&mut q).unwrap_err(), WsError::UnexpectedEof);
}

#[test]
fn masked_close_status_is_unmasked() {
    let msg = Message::close(1001, "");
    let wire = mpv_remote::message::encode_message(&msg, Some(0xa1b2c3d4));
    let mut q = ByteQueue::from_vec(wire);
    let m = get_message(&mut q).unwrap();
    assert_eq!(m.kind, MessageType::Close(1001));
    assert_eq!(m.remaining(), 0);
}

#[test]
fn message_constructors_and_opcodes() {
    assert_eq!(Message::text("hi").kind, MessageType::Text);
    assert_eq!(Message::binary(&[1]).kind, MessageType::Binary);
    assert_eq!(Message::ping(&[1]).kind, MessageType::Ping);
    assert_eq!(Message::pong(&[1]).data, vec![1]);
    let m: Message = "héllo".into();
    assert_eq!(m.data, "héllo".as_bytes().to_vec());
    assert_eq!(OpCode::from(MessageType::Close(5)), OpCode::Close);
    assert_eq!(OpCode::Pong.value(), 0xA);
}
