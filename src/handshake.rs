use vstd::prelude::*;
use vstd::string::StringSliceAdditionalSpecFns;
use vstd::utf8::encode_utf8;
use base64::Engine;
use sha1::Digest;
use crate::error::ProtocolError;
use crate::server::{header_lookup, header_view, response_bytes, Request, Response};

verus! {

/// The fixed GUID appended to the client's key before hashing.
pub const WS_ACCEPT_CONSTANT: &'static str = "258EAFA5-E914-47DA-95CA-C5AB0DC85B11";

/// The SHA-1 digest of a byte sequence.
pub uninterp spec fn sha1_of(data: Seq<u8>) -> Seq<u8>;

/// The padded standard-alphabet base64 text of a byte sequence.
pub uninterp spec fn base64_of(data: Seq<u8>) -> Seq<char>;

/// Relies on `sha1::Sha1::digest` (through `digest::Digest`): the SHA-1 digest of the input,
/// whose output size is 20 bytes.
#[verifier::external_body]
fn sha1_digest(data: &[u8]) -> (r: Vec<u8>)
    ensures
        r@ == sha1_of(data@),
        r@.len() == 20,
{
    sha1::Sha1::digest(data).to_vec()
}

/// Relies on `base64::engine::general_purpose::STANDARD.encode`: the padded base64 text of the
/// input. It panics only when the encoded length overflows `usize`, which the bound rules out.
#[verifier::external_body]
fn base64_encode(data: &[u8]) -> (r: String)
    requires
        data@.len() <= 0x3fff_ffff,
    ensures
        r@ == base64_of(data@),
{
    base64::engine::general_purpose::STANDARD.encode(data)
}

/// The `Sec-WebSocket-Accept` value owed for a `Sec-WebSocket-Key` whose characters are `key`.
pub open spec fn spec_accept(key: Seq<char>) -> Seq<char> {
    base64_of(sha1_of(encode_utf8(key) + WS_ACCEPT_CONSTANT.spec_bytes()))
}

/// Computes the accept token: base64 of the SHA-1 digest of the key followed by the GUID.
pub fn accept_token(key: &str) -> (r: String)
    ensures
        r@ == spec_accept(key@),
{
    let mut input: Vec<u8> = Vec::new();
    input.extend_from_slice(key.as_bytes());
    input.extend_from_slice(WS_ACCEPT_CONSTANT.as_bytes());
    assert(input@ =~= encode_utf8(key@) + WS_ACCEPT_CONSTANT.spec_bytes());
    let digest = sha1_digest(input.as_slice());
    base64_encode(digest.as_slice())
}

/// The `101 Switching Protocols` response carrying an accept token.
pub open spec fn spec_upgrade_response(accept: Seq<char>) -> Seq<u8> {
    response_bytes(
        "HTTP/1.1"@,
        101,
        seq![
            ("Upgrade"@, "websocket"@),
            ("Connection"@, "Upgrade"@),
            ("Sec-WebSocket-Accept"@, accept),
        ],
        None,
    )
}

/// The bytes of the upgrade response for a given accept token.
pub fn upgrade_response(accept: &str) -> (r: Vec<u8>)
    ensures
        r@ == spec_upgrade_response(accept@),
{
    let response = Response::new("HTTP/1.1", 101).header("Upgrade", "websocket").header(
        "Connection",
        "Upgrade",
    ).header("Sec-WebSocket-Accept", accept);
    let r = response.bytes();
    assert(header_view(response.headers@) =~= seq![
        ("Upgrade"@, "websocket"@),
        ("Connection"@, "Upgrade"@),
        ("Sec-WebSocket-Accept"@, accept@),
    ]);
    r
}

/// What the upgrade of `request` yields: the response bytes, or the missing-key error.
pub open spec fn spec_handshake(request: Request) -> Result<Seq<u8>, ProtocolError> {
    match header_lookup(header_view(request.headers@), "Sec-WebSocket-Key"@) {
        Some(key) => Ok(spec_upgrade_response(spec_accept(key))),
        None => Err(ProtocolError::MissingKey),
    }
}

/// Validates an upgrade request and produces the response that establishes the connection.
pub fn handshake_response(request: &Request) -> (r: Result<Vec<u8>, ProtocolError>)
    ensures
        match spec_handshake(*request) {
            Ok(b) => r is Ok && r->Ok_0@ == b,
            Err(e) => r == Err::<Vec<u8>, ProtocolError>(e),
        },
{
    match request.header("Sec-WebSocket-Key") {
        Some(key) => {
            let accept = accept_token(key.as_str());
            Ok(upgrade_response(accept.as_str()))
        },
        None => Err(ProtocolError::MissingKey),
    }
}

} // verus!
