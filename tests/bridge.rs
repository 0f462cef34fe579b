use mpv_remote::bridge::{BridgeAction, BridgeState, ConnectionBridge};
use mpv_remote::message::{Message, MessageType};
use mpv_remote::server::{Method, Request};
use mpv_remote::websocket::{WebSocketClient, WebSocketServer};

fn connect() -> ConnectionBridge {
    let req = Request {
        method: Method::GET,
        path: "/socket".to_string(),
        ver: "HTTP/1.1".to_string(),
        headers: vec![("Sec-WebSocket-Key".to_string(), "dGhlIHNhbXBsZSBub25jZQ==".to_string())],
    };
    let (ws, _) = WebSocketServer::handshake(&req).unwrap();
    ConnectionBridge::new(ws)
}

#[test]
fn client_text_then_feed_event() {
    let mut bridge = connect();
    let client = WebSocketClient::new();
    let wire = client.send_message(&Message::text("ping"), 0x5a5a1234);
    assert_eq!(wire[1] & 0x80, 0x80);
    bridge.receive(&wire);
    match bridge.poll() {
        BridgeAction::Deliver(kind, payload) => {
            assert_eq!(kind, MessageType::Text);
            assert_eq!(payload, b"ping".to_vec());
        },
        other => panic!("unexpected {:?}", other),
    }
    assert!(matches!(bridge.poll(), BridgeAction::Wait));
    let out = bridge.on_feed("42");
    assert_eq!(out, vec![0x81, 0x02, b'4', b'2']);
    let mut c = WebSocketClient::new();
    c.receive(&out);
    let mut m = c.get_message().unwrap();
    assert_eq!(m.kind, MessageType::Text);
    assert_eq!(m.frame.masking_key, None);
    assert_eq!(c.read(&mut m, 10), b"42".to_vec());
}

#[test]
fn partial_frames_wait() {
    let mut bridge = connect();
    let wire = WebSocketClient::new().send_message(&Message::binary(&[1, 2, 3, 4, 5]), 7);
    bridge.receive(&wire[..1]);
    assert!(matches!(bridge.poll(), BridgeAction::Wait));
    bridge.receive(&wire[1..8]);
    assert!(matches!(bridge.poll(), BridgeAction::Wait));
    bridge.receive(&wire[8..]);
    match bridge.poll() {
        BridgeAction::Deliver(kind, payload) => {
            assert_eq!(kind, MessageType::Binary);
            assert_eq!(payload, vec![1, 2, 3, 4, 5]);
        },
        other => panic!("unexpected {:?}", other),
    }
}

#[test]
fn two_messages_in_one_read() {
    let mut bridge = connect();
    let client = WebSocketClient::new();
    let mut wire = client.send_message(&Message::text("a"), 1);
    wire.extend(client.send_message(&Message::ping(b"p"), 2));
    bridge.receive(&wire);
    assert!(matches!(bridge.poll(), BridgeAction::Deliver(MessageType::Text, _)));
    assert!(matches!(bridge.poll(), BridgeAction::Deliver(MessageType::Ping, _)));
    assert!(matches!(bridge.poll(), BridgeAction::Wait));
}

#[test]
fn close_message_closes() {
    let mut bridge = connect();
    let wire = WebSocketClient::new().send_message(&Message::close(1000, "bye"), 99);
    bridge.receive(&wire);
    assert!(matches!(bridge.poll(), BridgeAction::Close));
    assert_eq!(bridge.state, BridgeState::Closed);
    assert_eq!(bridge.on_feed("42"), Vec::<u8>::new());
    assert_eq!(bridge.send(&Message::text("x")), Vec::<u8>::new());
}

#[test]
fn protocol_error_closes() {
    let mut bridge = connect();
    bridge.receive(&[0x83, 0x00]);
    assert!(matches!(bridge.poll(), BridgeAction::Close));
    assert_eq!(bridge.state, BridgeState::Closed);
}

#[test]
fn socket_end_closes() {
    let mut bridge = connect();
    bridge.on_socket_end();
    assert_eq!(bridge.state, BridgeState::Closed);
    assert!(matches!(bridge.poll(), BridgeAction::Close));
}

#[test]
fn replies_are_unmasked_frames() {
    let mut bridge = connect();
    assert_eq!(bridge.send(&Message::pong(b"p")), vec![0x8A, 1, b'p']);
}

fn server() -> WebSocketServer {
    let req = Request {
        method: Method::GET,
        path: "/socket".to_string(),
        ver: "HTTP/1.1".to_string(),
        headers: vec![("Sec-WebSocket-Key".to_string(), "k".to_string())],
    };
    WebSocketServer::handshake(&req).unwrap().0
}

#[test]
fn unread_message_is_drained_before_the_next() {
    let mut ws = server();
    let client = WebSocketClient::new();
    let mut wire = vec![0x81, 0x02, 0x82, 0x00];
    wire.extend(client.send_message(&Message::binary(&[9, 8, 7]), 0x01020304));
    ws.receive(&wire);
    let a = ws.get_message().unwrap();
    assert_eq!(a.kind, MessageType::Text);
    let mut b = ws.get_message().unwrap();
    assert_eq!(b.kind, MessageType::Binary);
    assert_eq!(ws.read(&mut b, 10), vec![9, 8, 7]);
    assert_eq!(ws.buffered(), 0);
}

#[test]
fn partly_read_message_is_drained_before_the_next() {
    let mut ws = server();
    let client = WebSocketClient::new();
    let mut wire = client.send_message(&Message::text("hello"), 0xdeadbeef);
    wire.extend(client.send_message(&Message::ping(b"p"), 5));
    ws.receive(&wire);
    let mut a = ws.get_message().unwrap();
    assert_eq!(ws.read(&mut a, 2), b"he".to_vec());
    let mut b = ws.get_message().unwrap();
    assert_eq!(b.kind, MessageType::Ping);
    assert_eq!(ws.read(&mut b, 10), b"p".to_vec());
}

#[test]
fn remainder_still_in_flight_is_drained_on_arrival() {
    let mut ws = server();
    let client = WebSocketClient::new();
    let first = client.send_message(&Message::binary(&[1, 2, 3, 4, 5, 6]), 77);
    let second = client.send_message(&Message::text("ok"), 78);
    ws.receive(&first[..8]);
    let a = ws.get_message().unwrap();
    assert_eq!(a.kind, MessageType::Binary);
    assert!(ws.get_message().is_err());
    ws.receive(&first[8..]);
    ws.receive(&second);
    let mut b = ws.get_message().unwrap();
    assert_eq!(b.kind, MessageType::Text);
    assert_eq!(ws.read(&mut b, 10), b"ok".to_vec());
}

#[test]
fn client_end_drains_too() {
    let ws = server();
    let mut c = WebSocketClient::new();
    let mut wire = ws.send_message(&Message::text("skip me"));
    wire.extend(ws.send_message(&Message::close(1000, "bye")));
    c.receive(&wire);
    let _ = c.get_message().unwrap();
    let mut m = c.get_message().unwrap();
    assert_eq!(m.kind, MessageType::Close(1000));
    assert_eq!(c.read(&mut m, 10), b"bye".to_vec());
}
