use mpv_remote::error::ProtocolError;
use mpv_remote::handshake::{accept_token, handshake_response, upgrade_response};
use mpv_remote::server::{Method, Request};
use mpv_remote::websocket::WebSocketServer;

fn request_with(headers: Vec<(&str, &str)>) -> Request {
    Request {
        method: Method::GET,
        path: "/socket".to_string(),
        ver: "HTTP/1.1".to_string(),
        headers: headers.into_iter().map(|(k, v)| (k.to_string(), v.to_string())).collect(),
    }
}

#[test]
fn accept_token_matches_the_rfc_example() {
    assert_eq!(accept_token("dGhlIHNhbXBsZSBub25jZQ=="), "s3pPLMBiTxaQ9kYGzzhZRbK+xOo=");
}

#[test]
fn accept_token_is_deterministic() {
    assert_eq!(accept_token("x3JJHMbDL1EzLkh9GBhXDw=="), accept_token("x3JJHMbDL1EzLkh9GBhXDw=="));
    assert_eq!(accept_token("x3JJHMbDL1EzLkh9GBhXDw=="), "HSmrc0sMlYUkAGmm5OPpG2HaGWk=");
}

#[test]
fn handshake_writes_the_upgrade_response() {
    let req = request_with(vec![("Host", "localhost"), ("Sec-WebSocket-Key", "dGhlIHNhbXBsZSBub25jZQ==")]);
    let expected = "HTTP/1.1 101\nUpgrade: websocket\nConnection: Upgrade\nSec-WebSocket-Accept: s3pPLMBiTxaQ9kYGzzhZRbK+xOo=\n\r\n";
    assert_eq!(handshake_response(&req).unwrap(), expected.as_bytes().to_vec());
    let (server, bytes) = WebSocketServer::handshake(&req).unwrap();
    assert_eq!(bytes, expected.as_bytes().to_vec());
    assert_eq!(server.buffered(), 0);
    assert_eq!(upgrade_response("abc"), "HTTP/1.1 101\nUpgrade: websocket\nConnection: Upgrade\nSec-WebSocket-Accept: abc\n\r\n".as_bytes().to_vec());
}

#[test]
fn handshake_without_key_fails() {
    let req = request_with(vec![("Host", "localhost"), ("sec-websocket-key", "abc")]);
    assert_eq!(handshake_response(&req), Err(ProtocolError::MissingKey));
    assert!(WebSocketServer::handshake(&req).is_err());
}

#[test]
fn later_header_wins() {
    let req = request_with(vec![("A", "1"), ("B", "2"), ("A", "3")]);
    assert_eq!(req.header("A"), Some("3".to_string()));
    assert_eq!(req.header("B"), Some("2".to_string()));
    assert_eq!(req.header("C"), None);
}
