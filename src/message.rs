use vstd::prelude::*;
use crate::error::{ProtocolError, WsError};
use crate::frame::{spec_decode, Frame, OpCode};
use crate::mask::unmask_opt;
use crate::stream::ByteQueue;
use crate::wire::{push_u16_be, u16_be, u16_from_be};
use vstd::string::StringSliceAdditionalSpecFns;

verus! {

/// The application-level kind of a message; a close carries its status code.
#[derive(Debug, Clone, Copy, PartialEq, Eq, Structural)]
pub enum MessageType {
    Text,
    Binary,
    Ping,
    Pong,
    Close(u16),
}

/// The opcode of the frame that carries a message of kind `t`.
pub open spec fn opcode_for(t: MessageType) -> OpCode {
    match t {
        MessageType::Text => OpCode::Text,
        MessageType::Binary => OpCode::Binary,
        MessageType::Ping => OpCode::Ping,
        MessageType::Pong => OpCode::Pong,
        MessageType::Close(_) => OpCode::Close,
    }
}

impl From<MessageType> for OpCode {
    fn from(value: MessageType) -> (r: OpCode) {
        match value {
            MessageType::Text => OpCode::Text,
            MessageType::Binary => OpCode::Binary,
            MessageType::Ping => OpCode::Ping,
            MessageType::Pong => OpCode::Pong,
            MessageType::Close(_) => OpCode::Close,
        }
    }
}

impl vstd::std_specs::convert::FromSpecImpl<MessageType> for OpCode {
    open spec fn obeys_from_spec() -> bool {
        true
    }

    open spec fn from_spec(v: MessageType) -> OpCode {
        opcode_for(v)
    }
}

/// A complete message: its kind and its payload bytes (for a close, the reason after the status).
#[derive(Debug)]
pub struct Message {
    pub kind: MessageType,
    pub data: Vec<u8>,
}

/// The payload a message is sent with: a close's status code comes first, in network order.
pub open spec fn wire_payload(kind: MessageType, data: Seq<u8>) -> Seq<u8> {
    match kind {
        MessageType::Close(code) => u16_be(code) + data,
        _ => data,
    }
}

/// The single final frame that carries a message, masked with `key` if one is given.
pub open spec fn frame_for(kind: MessageType, data: Seq<u8>, key: Option<u32>) -> Frame {
    Frame {
        fin: true,
        opcode: opcode_for(kind),
        payload_len: wire_payload(kind, data).len() as u64,
        masking_key: key,
        bytes_read: 0,
    }
}

/// The bytes on the wire for a message.
pub open spec fn encoded_message(kind: MessageType, data: Seq<u8>, key: Option<u32>) -> Seq<u8> {
    frame_for(kind, data, key).spec_header() + unmask_opt(wire_payload(kind, data), key, 0)
}

impl Message {
    /// A text message carrying the UTF-8 bytes of `data`.
    pub fn text(data: &str) -> (r: Message)
        ensures
            r.kind == MessageType::Text,
            r.data@ == data.spec_bytes(),
    {
        let bytes = data.as_bytes();
        let mut v: Vec<u8> = Vec::new();
        v.extend_from_slice(bytes);
        Message { kind: MessageType::Text, data: v }
    }

    /// A binary message.
    pub fn binary(data: &[u8]) -> (r: Message)
        ensures
            r.kind == MessageType::Binary,
            r.data@ == data@,
    {
        let mut v: Vec<u8> = Vec::new();
        v.extend_from_slice(data);
        Message { kind: MessageType::Binary, data: v }
    }

    /// A close message with a status code and a UTF-8 reason.
    pub fn close(status: u16, reason: &str) -> (r: Message)
        ensures
            r.kind == MessageType::Close(status),
            r.data@ == reason.spec_bytes(),
    {
        let bytes = reason.as_bytes();
        let mut v: Vec<u8> = Vec::new();
        v.extend_from_slice(bytes);
        Message { kind: MessageType::Close(status), data: v }
    }

    /// A ping message.
    pub fn ping(data: &[u8]) -> (r: Message)
        ensures
            r.kind == MessageType::Ping,
            r.data@ == data@,
    {
        let mut v: Vec<u8> = Vec::new();
        v.extend_from_slice(data);
        Message { kind: MessageType::Ping, data: v }
    }

    /// A pong message.
    pub fn pong(data: &[u8]) -> (r: Message)
        ensures
            r.kind == MessageType::Pong,
            r.data@ == data@,
    {
        let mut v: Vec<u8> = Vec::new();
        v.extend_from_slice(data);
        Message { kind: MessageType::Pong, data: v }
    }
}

impl<'a> From<&'a str> for Message {
    fn from(value: &'a str) -> (r: Message) {
        Message::text(value)
    }
}

impl<'a> vstd::std_specs::convert::FromSpecImpl<&'a str> for Message {
    open spec fn obeys_from_spec() -> bool {
        false
    }

    open spec fn from_spec(v: &'a str) -> Message {
        arbitrary()
    }
}

impl<'a> From<&'a [u8]> for Message {
    fn from(value: &'a [u8]) -> (r: Message) {
        Message::binary(value)
    }
}

impl<'a> vstd::std_specs::convert::FromSpecImpl<&'a [u8]> for Message {
    open spec fn obeys_from_spec() -> bool {
        false
    }

    open spec fn from_spec(v: &'a [u8]) -> Message {
        arbitrary()
    }
}

/// Encodes a message as one final frame, masked with `key` if one is given.
pub fn encode_message(msg: &Message, key: Option<u32>) -> (r: Vec<u8>)
    requires
        msg.data@.len() + 2 <= u64::MAX,
    ensures
        r@ == encoded_message(msg.kind, msg.data@, key),
{
    let mut payload: Vec<u8> = Vec::new();
    match msg.kind {
        MessageType::Close(code) => push_u16_be(&mut payload, code),
        _ => {},
    }
    payload.extend_from_slice(msg.data.as_slice());
    assert(payload@ =~= wire_payload(msg.kind, msg.data@));
    let frame = Frame::new(true, OpCode::from(msg.kind), payload.len() as u64, key);
    frame.serialize(payload.as_slice())
}

/// An inbound message: its kind and a view of its frame's payload, bounded by the declared
/// length (net of a close's status code).
#[derive(Debug, Clone, Copy, PartialEq, Eq, Structural)]
pub struct MessageStream {
    pub kind: MessageType,
    pub frame: Frame,
}

impl MessageStream {
    pub open spec fn wf(&self) -> bool {
        self.frame.wf()
    }

    /// Payload bytes of the message not read yet.
    pub open spec fn spec_remaining(&self) -> int {
        self.frame.remaining()
    }

    /// Payload bytes of the message not read yet.
    pub fn remaining(&self) -> (r: u64)
        requires
            self.wf(),
        ensures
            r == self.spec_remaining(),
    {
        self.frame.payload_len - self.frame.bytes_read
    }

    /// Reads up to `max` bytes of the message from `src`; past the message's end it returns
    /// nothing and consumes nothing.
    pub fn read(&mut self, src: &mut ByteQueue, max: usize) -> (r: Vec<u8>)
        requires
            old(self).wf(),
            old(src).wf(),
        ensures
            final(self).wf(),
            final(src).wf(),
            ({
                let n = crate::frame::read_count(
                    max as int,
                    old(self).spec_remaining(),
                    old(src)@.len() as int,
                );
                &&& r@ == unmask_opt(
                    old(src)@.take(n),
                    old(self).frame.masking_key,
                    old(self).frame.bytes_read as int,
                )
                &&& final(src)@ == old(src)@.skip(n)
                &&& final(self).kind == old(self).kind
                &&& final(self).frame == Frame {
                    bytes_read: (old(self).frame.bytes_read + n) as u64,
                    ..old(self).frame
                }
            }),
    {
        self.frame.read(src, max)
    }

    /// Reads what is left of the message, as far as `src` holds it.
    pub fn read_to_end(&mut self, src: &mut ByteQueue) -> (r: Vec<u8>)
        requires
            old(self).wf(),
            old(src).wf(),
        ensures
            final(self).wf(),
            final(src).wf(),
            ({
                let n = if old(self).spec_remaining() <= old(src)@.len() {
                    old(self).spec_remaining()
                } else {
                    old(src)@.len() as int
                };
                &&& r@ == unmask_opt(
                    old(src)@.take(n),
                    old(self).frame.masking_key,
                    old(self).frame.bytes_read as int,
                )
                &&& final(src)@ == old(src)@.skip(n)
                &&& final(self).kind == old(self).kind
                &&& final(self).frame == Frame {
                    bytes_read: (old(self).frame.bytes_read + n) as u64,
                    ..old(self).frame
                }
            }),
    {
        let avail = src.len();
        self.frame.read(src, avail)
    }
}

/// The kind of an inbound message whose frame has opcode `op`, for opcodes that carry one.
pub open spec fn kind_of(op: OpCode, status: u16) -> MessageType {
    match op {
        OpCode::Text => MessageType::Text,
        OpCode::Binary => MessageType::Binary,
        OpCode::Ping => MessageType::Ping,
        OpCode::Pong => MessageType::Pong,
        _ => MessageType::Close(status),
    }
}

/// Takes the next message from the front of `s`: the message and the number of bytes its
/// header (and a close's status code) occupy.
pub open spec fn spec_next_message(s: Seq<u8>) -> Result<(MessageStream, int), WsError> {
    match spec_decode(s) {
        Err(e) => Err(e),
        Ok((f, n)) => {
            if f.opcode == OpCode::Cont {
                Err(WsError::Protocol(ProtocolError::UnsupportedContinuation))
            } else if f.opcode == OpCode::Close {
                if f.payload_len < 2 {
                    Err(WsError::Protocol(ProtocolError::MalformedClose))
                } else if s.len() < n + 2 {
                    Err(WsError::UnexpectedEof)
                } else {
                    let status = u16_from_be(unmask_opt(s.subrange(n, n + 2), f.masking_key, 0));
                    Ok(
                        (
                            MessageStream {
                                kind: MessageType::Close(status),
                                frame: Frame { bytes_read: 2, ..f },
                            },
                            n + 2,
                        ),
                    )
                }
            } else {
                Ok((MessageStream { kind: kind_of(f.opcode, 0), frame: f }, n))
            }
        },
    }
}

/// Takes the next message's header from `src`. On success the header (and a close's status
/// code) is consumed; on failure nothing is.
pub fn get_message(src: &mut ByteQueue) -> (r: Result<MessageStream, WsError>)
    requires
        old(src).wf(),
    ensures
        final(src).wf(),
        match spec_next_message(old(src)@) {
            Ok((m, n)) => r == Ok::<MessageStream, WsError>(m) && final(src)@ == old(src)@.skip(n),
            Err(e) => r == Err::<MessageStream, WsError>(e) && final(src)@ == old(src)@,
        },
        r is Ok ==> r->Ok_0.wf(),
{
    let (mut frame, n) = match Frame::peek_header(src) {
        Ok(h) => h,
        Err(e) => {
            return Err(e);
        },
    };
    let kind = match frame.opcode {
        OpCode::Text => MessageType::Text,
        OpCode::Binary => MessageType::Binary,
        OpCode::Ping => MessageType::Ping,
        OpCode::Pong => MessageType::Pong,
        OpCode::Cont => {
            return Err(WsError::Protocol(ProtocolError::UnsupportedContinuation));
        },
        OpCode::Close => {
            if frame.payload_len < 2 {
                return Err(WsError::Protocol(ProtocolError::MalformedClose));
            }
            if src.len() - n < 2 {
                return Err(WsError::UnexpectedEof);
            }
            MessageType::Close(0)
        },
    };
    src.skip(n);
    match kind {
        MessageType::Close(_) => {
            let ghost s = src@;
            let status_bytes = frame.read(src, 2);
            assert(s.take(2) =~= old(src)@.subrange(n as int, n + 2));
            let code = ((status_bytes[0] as u16) << 8u16) | (status_bytes[1] as u16);
            assert(old(src)@.skip(n + 2) =~= s.skip(2));
            Ok(MessageStream { kind: MessageType::Close(code), frame })
        },
        _ => Ok(MessageStream { kind, frame }),
    }
}

} // verus!
