use mpv_remote::server::{HttpError, Method, Request};

#[test]
fn parses_an_upgrade_request() {
    let head = "GET /socket HTTP/1.1\r\nHost: localhost:5585\r\nSec-WebSocket-Key:   dGhlIHNhbXBsZSBub25jZQ==  \r\nUpgrade: websocket\r\n\r\n";
    let r = Request::parse(head).unwrap();
    assert_eq!(r.method, Method::GET);
    assert_eq!(r.path, "/socket");
    assert_eq!(r.ver, "HTTP/1.1");
    assert_eq!(r.headers.len(), 3);
    assert_eq!(r.headers[0], ("Host".to_string(), "localhost:5585".to_string()));
    assert_eq!(r.header("Sec-WebSocket-Key"), Some("dGhlIHNhbXBsZSBub25jZQ==".to_string()));
    assert_eq!(r.header("Upgrade"), Some("websocket".to_string()));
}

#[test]
fn request_without_headers() {
    let r = Request::parse("POST  /a/b \t HTTP/1.0\r\n\r\n").unwrap();
    assert_eq!(r.method, Method::POST);
    assert_eq!(r.path, "/a/b");
    assert_eq!(r.ver, "HTTP/1.0");
    assert!(r.headers.is_empty());
}

#[test]
fn request_errors() {
    assert_eq!(Request::parse("").unwrap_err(), HttpError::UnexpectedEof);
    assert_eq!(Request::parse("GET / HTTP/1.1\r\nHost: x\r\n").unwrap_err(), HttpError::UnexpectedEof);
    assert_eq!(Request::parse("GET / HTTP/1.1").unwrap_err(), HttpError::UnexpectedEof);
    assert_eq!(Request::parse("GET /\r\n\r\n").unwrap_err(), HttpError::InvalidRequestLine);
    assert_eq!(Request::parse("GET / HTTP/1.1 x\r\n\r\n").unwrap_err(), HttpError::InvalidRequestLine);
    assert_eq!(Request::parse("GET / HTTP/1.1\r\nno colon\r\n\r\n").unwrap_err(), HttpError::InvalidHeader);
    assert_eq!(Request::parse("GET / HTTP/1.1\r\nno colon").unwrap_err(), HttpError::InvalidHeader);
    assert_eq!(Request::parse("FETCH / HTTP/1.1\r\n\r\n").unwrap_err(), HttpError::InvalidMethod);
}

#[test]
fn header_names_keep_their_spelling() {
    let r = Request::parse("GET / HTTP/1.1\r\nX-Thing :  a: b \r\n\r\n").unwrap();
    assert_eq!(r.headers, vec![("X-Thing ".to_string(), "a: b".to_string())]);
}
