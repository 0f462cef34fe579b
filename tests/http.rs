use mpv_remote::config::Config;
use mpv_remote::logger::{LogLevel, Logger};
use mpv_remote::mpv::{ObservedPropID, PropError};
use mpv_remote::route::{not_found_response, ok_response, route, Route};
use mpv_remote::server::{parse_url, HttpError, Method, Response};

#[test]
fn url_pieces() {
    assert_eq!(parse_url("/static/main.js"), vec!["", "static", "main.js"]);
    assert_eq!(parse_url(""), vec![""]);
    assert_eq!(parse_url("/"), vec!["", ""]);
    assert_eq!(parse_url("a//é/"), vec!["a", "", "é", ""]);
}

#[test]
fn routes() {
    assert!(matches!(route(&parse_url("/")), Route::Index));
    assert!(matches!(route(&parse_url("//")), Route::Index));
    assert!(matches!(route(&parse_url("/static/main.js")), Route::MainJs));
    assert!(matches!(route(&parse_url("/static/output.css")), Route::OutputCss));
    assert!(matches!(route(&parse_url("/static/symbols/material-symbols.woff2")), Route::SymbolsFont));
    assert!(matches!(route(&parse_url("/socket")), Route::Socket));
    assert!(matches!(route(&parse_url("/nothing")), Route::NotFound));
    assert!(matches!(route(&parse_url("")), Route::NotFound));
    match route(&parse_url("/file-picker/music/jazz")) {
        Route::FilePicker(rest) => assert_eq!(rest, vec!["music", "jazz"]),
        _ => panic!("expected the file picker"),
    }
    assert_eq!(Route::MainJs.content_type(), Some("text/javascript"));
    assert_eq!(Route::Socket.content_type(), None);
}

#[test]
fn responses() {
    let r = Response::new("HTTP/1.1", 200).header("Content-Type", "text/html").body(b"<p>");
    assert_eq!(r.bytes(), b"HTTP/1.1 200\nContent-Type: text/html\n\r\n<p>".to_vec());
    assert_eq!(ok_response("text/css", b"x").bytes(), b"HTTP/1.1 200\nContent-Type: text/css\n\r\nx".to_vec());
    assert_eq!(not_found_response().bytes(), b"HTTP/1.1 404\nContent-Type: text/html\n\r\n".to_vec());
    assert_eq!(Response::new("HTTP/1.0", 7).bytes(), b"HTTP/1.0 7\n\r\n".to_vec());
}

#[test]
fn methods() {
    assert_eq!(Method::try_from("GET"), Ok(Method::GET));
    assert_eq!(Method::try_from("PATCH"), Ok(Method::PATCH));
    assert_eq!(Method::try_from("get"), Err(HttpError::InvalidMethod));
}

#[test]
fn default_config() {
    let c = Config::default();
    assert_eq!(c.host, "0.0.0.0");
    assert_eq!(c.port, 5585);
}

#[test]
fn log_lines() {
    assert_eq!(Logger.line(LogLevel::Warn, "careful"), "[mpvRemote] Warn - careful");
    assert_eq!(LogLevel::Debug.name(), "Debug");
}

#[test]
fn observed_properties() {
    assert_eq!(ObservedPropID::try_from(1u64), Ok(ObservedPropID::Pause));
    assert_eq!(ObservedPropID::try_from(6u64), Ok(ObservedPropID::CoreIdle));
    assert_eq!(ObservedPropID::try_from(7u64), Err(PropError::InvalidId(7)));
    assert_eq!(ObservedPropID::try_from("ao-volume"), Ok(ObservedPropID::Volume));
    assert_eq!(ObservedPropID::try_from("volume"), Err(PropError::BadName));
    assert_eq!(ObservedPropID::TimePos.to_string(), "time-pos");
    assert_eq!(ObservedPropID::Playlist.id(), 3);
    assert_eq!(ObservedPropID::startup_set().len(), 4);
}
