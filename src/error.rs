use vstd::prelude::*;

verus! {

/// A violation of the WebSocket protocol by the peer; always fatal to the connection.
#[derive(Debug, Clone, Copy, PartialEq, Eq, Structural)]
pub enum ProtocolError {
    /// The opcode bits of a frame header hold an unassigned value.
    IllegalOpcode(u8),
    /// The upgrade request lacks the `Sec-WebSocket-Key` header.
    MissingKey,
    /// A close frame shorter than its two-byte status code.
    MalformedClose,
    /// A continuation frame; multi-frame messages are not reassembled.
    UnsupportedContinuation,
}

/// Why a frame or message could not be taken from the connection.
#[derive(Debug, Clone, Copy, PartialEq, Eq, Structural)]
pub enum WsError {
    Protocol(ProtocolError),
    /// The connection's bytes ended inside a frame header or a status code.
    UnexpectedEof,
}

impl WsError {
    pub open spec fn spec_is_protocol(self) -> bool {
        self is Protocol
    }

    /// Whether the error is a protocol error, as opposed to a short read.
    pub fn is_protocol(&self) -> (r: bool)
        ensures
            r == self.spec_is_protocol(),
    {
        match self {
            WsError::Protocol(_) => true,
            WsError::UnexpectedEof => false,
        }
    }
}

} // verus!
