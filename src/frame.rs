use vstd::prelude::*;
use crate::error::{ProtocolError, WsError};
use crate::mask::{mask, unmask_opt};
use crate::stream::ByteQueue;
use crate::wire::{
    lemma_u16_round_trip, lemma_u32_round_trip, lemma_u64_round_trip, push_u16_be, push_u32_be,
    push_u64_be, u16_be, u16_from_be, u32_be, u32_from_be, u64_be, u64_from_be,
};

verus! {

/// The four-bit frame-type discriminator of a WebSocket frame.
#[derive(Debug, Clone, Copy, PartialEq, Eq, Structural)]
pub enum OpCode {
    Cont,
    Text,
    Binary,
    Close,
    Ping,
    Pong,
}

impl OpCode {
    /// The wire value of the opcode.
    pub open spec fn spec_value(self) -> u8 {
        match self {
            OpCode::Cont => 0x0,
            OpCode::Text => 0x1,
            OpCode::Binary => 0x2,
            OpCode::Close => 0x8,
            OpCode::Ping => 0x9,
            OpCode::Pong => 0xA,
        }
    }

    pub fn value(self) -> (r: u8)
        ensures
            r == self.spec_value(),
    {
        match self {
            OpCode::Cont => 0x0,
            OpCode::Text => 0x1,
            OpCode::Binary => 0x2,
            OpCode::Close => 0x8,
            OpCode::Ping => 0x9,
            OpCode::Pong => 0xA,
        }
    }
}

/// The opcode whose wire value is `v`, if `v` is an assigned value.
pub open spec fn opcode_of(v: u8) -> Option<OpCode> {
    if v == 0x0 {
        Some(OpCode::Cont)
    } else if v == 0x1 {
        Some(OpCode::Text)
    } else if v == 0x2 {
        Some(OpCode::Binary)
    } else if v == 0x8 {
        Some(OpCode::Close)
    } else if v == 0x9 {
        Some(OpCode::Ping)
    } else if v == 0xA {
        Some(OpCode::Pong)
    } else {
        None
    }
}

pub proof fn lemma_opcode_of_value(op: OpCode)
    ensures
        opcode_of(op.spec_value()) == Some(op),
{
}

impl TryFrom<u8> for OpCode {
    type Error = ProtocolError;

    fn try_from(value: u8) -> (r: Result<OpCode, ProtocolError>) {
        if value == 0x0 {
            Ok(OpCode::Cont)
        } else if value == 0x1 {
            Ok(OpCode::Text)
        } else if value == 0x2 {
            Ok(OpCode::Binary)
        } else if value == 0x8 {
            Ok(OpCode::Close)
        } else if value == 0x9 {
            Ok(OpCode::Ping)
        } else if value == 0xA {
            Ok(OpCode::Pong)
        } else {
            Err(ProtocolError::IllegalOpcode(value))
        }
    }
}

impl vstd::std_specs::convert::TryFromSpecImpl<u8> for OpCode {
    open spec fn obeys_try_from_spec() -> bool {
        true
    }

    open spec fn try_from_spec(v: u8) -> Result<OpCode, ProtocolError> {
        match opcode_of(v) {
            Some(op) => Ok(op),
            None => Err(ProtocolError::IllegalOpcode(v)),
        }
    }
}

/// A decoded or to-be-encoded frame header, with the count of payload bytes already read.
#[derive(Debug, Clone, Copy, PartialEq, Eq, Structural)]
pub struct Frame {
    pub fin: bool,
    pub opcode: OpCode,
    /// Length of the payload in bytes, independent of its wire encoding width.
    pub payload_len: u64,
    /// Present on client-to-server frames.
    pub masking_key: Option<u32>,
    /// Payload bytes consumed so far; the offset of the next byte for unmasking.
    pub bytes_read: u64,
}

/// The first header byte: the final-fragment flag and the opcode.
pub open spec fn first_byte(fin: bool, opcode: OpCode) -> u8 {
    (if fin { 0x80u8 } else { 0u8 }) | opcode.spec_value()
}

/// The length bytes of a header: the smallest of the three encodings that fits.
pub open spec fn length_field(len: u64, masked: bool) -> Seq<u8> {
    let m: u8 = if masked { 0x80u8 } else { 0u8 };
    if len <= 125 {
        seq![m | (len as u8)]
    } else if len <= 0xffff {
        seq![m | 126u8] + u16_be(len as u16)
    } else {
        seq![m | 127u8] + u64_be(len)
    }
}

/// The encoded header of a frame.
pub open spec fn header_bytes(fin: bool, opcode: OpCode, len: u64, key: Option<u32>) -> Seq<u8> {
    seq![first_byte(fin, opcode)] + length_field(len, key is Some) + match key {
        Some(k) => u32_be(k),
        None => Seq::<u8>::empty(),
    }
}

impl Frame {
    pub open spec fn wf(&self) -> bool {
        self.bytes_read <= self.payload_len
    }

    /// The encoded header of this frame.
    pub open spec fn spec_header(&self) -> Seq<u8> {
        header_bytes(self.fin, self.opcode, self.payload_len, self.masking_key)
    }

    /// Payload bytes not read yet.
    pub open spec fn remaining(&self) -> int {
        self.payload_len - self.bytes_read
    }
}

/// Number of extended length bytes announced by the length indicator `l`.
pub open spec fn ext_len(l: u8) -> int {
    if l == 126 {
        2
    } else if l == 127 {
        8
    } else {
        0
    }
}

/// Decodes a frame header from the front of `s`: the frame and the number of header bytes.
pub open spec fn spec_decode(s: Seq<u8>) -> Result<(Frame, int), WsError> {
    if s.len() < 2 {
        Err(WsError::UnexpectedEof)
    } else {
        let b0 = s[0];
        let b1 = s[1];
        match opcode_of(b0 & 0x7f) {
            None => Err(WsError::Protocol(ProtocolError::IllegalOpcode(b0 & 0x7f))),
            Some(op) => {
                let masked = (b1 & 0x80) != 0;
                let l = b1 & 0x7f;
                let e = ext_len(l);
                let total = 2 + e + if masked { 4int } else { 0int };
                if s.len() < total {
                    Err(WsError::UnexpectedEof)
                } else {
                    let len: u64 = if l == 126 {
                        u16_from_be(s.subrange(2, 4)) as u64
                    } else if l == 127 {
                        u64_from_be(s.subrange(2, 10))
                    } else {
                        l as u64
                    };
                    let key = if masked {
                        Some(u32_from_be(s.subrange(2 + e, 2 + e + 4)))
                    } else {
                        None
                    };
                    Ok(
                        (
                            Frame {
                                fin: (b0 & 0x80) != 0,
                                opcode: op,
                                payload_len: len,
                                masking_key: key,
                                bytes_read: 0,
                            },
                            total,
                        ),
                    )
                }
            },
        }
    }
}

/// The length indicator selects the 7-bit form up to 125, the 16-bit extended form up to
/// 65535, and the 64-bit extended form above that.
pub proof fn lemma_length_tiers(len: u64, masked: bool)
    ensures
        len <= 125 ==> length_field(len, masked).len() == 1 && (length_field(len, masked)[0]
            & 0x7f) == len,
        125 < len <= 0xffff ==> length_field(len, masked).len() == 3 && (length_field(
            len,
            masked,
        )[0] & 0x7f) == 126,
        0xffff < len ==> length_field(len, masked).len() == 9 && (length_field(len, masked)[0]
            & 0x7f) == 127,
{
    lemma_u64_narrowing(len);
    let x: u8 = if len <= 125 {
        len as u8
    } else if len <= 0xffff {
        126u8
    } else {
        127u8
    };
    lemma_first_byte_bits(masked, x);
}

/// A header whose opcode bits hold an unassigned value is rejected as a protocol error, before
/// anything about lengths or payload is looked at.
pub proof fn lemma_illegal_opcode_rejected(s: Seq<u8>)
    requires
        s.len() >= 2,
        opcode_of(s[0] & 0x7f) is None,
    ensures
        spec_decode(s) == Err::<(Frame, int), WsError>(
            WsError::Protocol(ProtocolError::IllegalOpcode(s[0] & 0x7f)),
        ),
{
}

/// Bytes delivered by one bounded read: at most `max`, no more than what the payload has left
/// and no more than the connection holds.
pub open spec fn read_count(max: int, remaining: int, available: int) -> int {
    if max <= remaining && max <= available {
        max
    } else if remaining <= available {
        remaining
    } else {
        available
    }
}

proof fn lemma_first_byte_bits(fin: bool, v: u8)
    requires
        v < 0x80,
    ensures
        (((if fin { 0x80u8 } else { 0u8 }) | v) & 0x7f) == v,
        ((((if fin { 0x80u8 } else { 0u8 }) | v) & 0x80) != 0) == fin,
{
    if fin {
        assert(((0x80u8 | v) & 0x7f) == v && ((0x80u8 | v) & 0x80) != 0) by (bit_vector)
            requires
                v < 0x80,
        ;
    } else {
        assert(((0u8 | v) & 0x7f) == v && ((0u8 | v) & 0x80) == 0) by (bit_vector)
            requires
                v < 0x80,
        ;
    }
}

proof fn lemma_u64_narrowing(len: u64)
    ensures
        len <= 125 ==> (len as u8) as u64 == len,
        len <= 0xffff ==> (len as u16) as u64 == len,
{
    assert(len <= 125 ==> (len as u8) as u64 == len) by (bit_vector);
    assert(len <= 0xffff ==> (len as u16) as u64 == len) by (bit_vector);
}

/// Decoding what encoding produced gives back the frame, and unmasking the transmitted payload
/// gives back the payload, whatever bytes follow the frame.
pub proof fn lemma_frame_round_trip(f: Frame, payload: Seq<u8>, rest: Seq<u8>)
    requires
        f.bytes_read == 0,
        payload.len() == f.payload_len,
    ensures
        spec_decode(f.spec_header() + unmask_opt(payload, f.masking_key, 0) + rest) == Ok::<
            (Frame, int),
            WsError,
        >((f, f.spec_header().len() as int)),
        unmask_opt(unmask_opt(payload, f.masking_key, 0), f.masking_key, 0) == payload,
{
    let h = f.spec_header();
    let s = h + unmask_opt(payload, f.masking_key, 0) + rest;
    let masked = f.masking_key is Some;
    let m: u8 = if masked { 0x80u8 } else { 0u8 };
    let len = f.payload_len;
    assert(s.subrange(0, h.len() as int) =~= h);
    lemma_first_byte_bits(f.fin, f.opcode.spec_value());
    lemma_opcode_of_value(f.opcode);
    lemma_u64_narrowing(len);
    let x: u8 = if len <= 125 {
        len as u8
    } else if len <= 0xffff {
        126u8
    } else {
        127u8
    };
    assert(s[1] == m | x);
    lemma_first_byte_bits(masked, x);
    let e = ext_len(x);
    if len > 125 && len <= 0xffff {
        assert(s.subrange(2, 4) =~= u16_be(len as u16));
        lemma_u16_round_trip(len as u16);
    } else if len > 0xffff {
        assert(s.subrange(2, 10) =~= u64_be(len));
        lemma_u64_round_trip(len);
    }
    if let Some(k) = f.masking_key {
        assert(s.subrange(2 + e, 2 + e + 4) =~= u32_be(k));
        lemma_u32_round_trip(k);
        crate::mask::lemma_mask_involution(payload, k, 0);
    }
}

impl Frame {
    /// A frame header with nothing of its payload read yet.
    pub fn new(fin: bool, opcode: OpCode, payload_len: u64, masking_key: Option<u32>) -> (r: Frame)
        ensures
            r == (Frame { fin, opcode, payload_len, masking_key, bytes_read: 0 }),
    {
        Frame { fin, opcode, payload_len, masking_key, bytes_read: 0 }
    }

    /// Encodes the header: flag and opcode, the smallest length encoding that fits, then the
    /// masking key if there is one.
    pub fn encode_header(&self) -> (r: Vec<u8>)
        ensures
            r@ == self.spec_header(),
    {
        let mut out: Vec<u8> = Vec::new();
        let b0: u8 = (if self.fin { 0x80u8 } else { 0u8 }) | self.opcode.value();
        out.push(b0);
        let m: u8 = match self.masking_key {
            Some(_) => 0x80u8,
            None => 0u8,
        };
        if self.payload_len <= 125 {
            out.push(m | (self.payload_len as u8));
        } else if self.payload_len <= 0xffff {
            out.push(m | 126u8);
            push_u16_be(&mut out, self.payload_len as u16);
        } else {
            out.push(m | 127u8);
            push_u64_be(&mut out, self.payload_len);
        }
        match self.masking_key {
            Some(k) => push_u32_be(&mut out, k),
            None => {},
        }
        assert(out@ =~= self.spec_header());
        out
    }

    /// The header followed by the payload, masked where the frame carries a key.
    pub fn serialize(&self, payload: &[u8]) -> (r: Vec<u8>)
        requires
            payload@.len() == self.payload_len,
        ensures
            r@ == self.spec_header() + unmask_opt(payload@, self.masking_key, 0),
    {
        let mut out = self.encode_header();
        match self.masking_key {
            Some(k) => {
                let body = mask(payload, k, 0);
                out.extend_from_slice(body.as_slice());
            },
            None => {
                out.extend_from_slice(payload);
            },
        }
        out
    }

    /// Decodes a frame header from the front of `src`. On success the header's bytes are
    /// consumed and nothing of the payload; on failure nothing is consumed.
    pub fn deserialize(src: &mut ByteQueue) -> (r: Result<Frame, WsError>)
        requires
            old(src).wf(),
        ensures
            final(src).wf(),
            match spec_decode(old(src)@) {
                Ok((f, n)) => r == Ok::<Frame, WsError>(f) && final(src)@ == old(src)@.skip(n),
                Err(e) => r == Err::<Frame, WsError>(e) && final(src)@ == old(src)@,
            },
    {
        match Frame::peek_header(src) {
            Ok((f, n)) => {
                src.skip(n);
                Ok(f)
            },
            Err(e) => Err(e),
        }
    }

    /// Decodes the frame header at the front of `src` without consuming anything: the frame
    /// and the length of its header.
    pub fn peek_header(src: &ByteQueue) -> (r: Result<(Frame, usize), WsError>)
        requires
            src.wf(),
        ensures
            match spec_decode(src@) {
                Ok((f, n)) => r == Ok::<(Frame, usize), WsError>((f, n as usize)) && n <= src@.len(),
                Err(e) => r == Err::<(Frame, usize), WsError>(e),
            },
    {
        let avail = src.len();
        if avail < 2 {
            return Err(WsError::UnexpectedEof);
        }
        let b0 = src.peek(0);
        let b1 = src.peek(1);
        let opcode = match OpCode::try_from(b0 & 0x7f) {
            Ok(op) => op,
            Err(e) => {
                return Err(WsError::Protocol(e));
            },
        };
        let masked = (b1 & 0x80) != 0;
        let l = b1 & 0x7f;
        let e: usize = if l == 126 {
            2
        } else if l == 127 {
            8
        } else {
            0
        };
        let total: usize = 2 + e + if masked {
            4
        } else {
            0
        };
        if avail < total {
            return Err(WsError::UnexpectedEof);
        }
        let ghost s = src@;
        let payload_len: u64 = if l == 126 {
            let v = ((src.peek(2) as u16) << 8u16) | (src.peek(3) as u16);
            assert(v == u16_from_be(s.subrange(2, 4)));
            v as u64
        } else if l == 127 {
            let v = ((src.peek(2) as u64) << 56u64) | ((src.peek(3) as u64) << 48u64) | ((src.peek(
                4,
            ) as u64) << 40u64) | ((src.peek(5) as u64) << 32u64) | ((src.peek(6) as u64) << 24u64)
                | ((src.peek(7) as u64) << 16u64) | ((src.peek(8) as u64) << 8u64) | (src.peek(
                9,
            ) as u64);
            assert(v == u64_from_be(s.subrange(2, 10)));
            v
        } else {
            l as u64
        };
        let masking_key = if masked {
            let k = 2 + e;
            let v = ((src.peek(k) as u32) << 24u32) | ((src.peek(k + 1) as u32) << 16u32) | ((
            src.peek(k + 2) as u32) << 8u32) | (src.peek(k + 3) as u32);
            assert(v == u32_from_be(s.subrange(k as int, k + 4)));
            Some(v)
        } else {
            None
        };
        Ok((Frame { fin: (b0 & 0x80) != 0, opcode, payload_len, masking_key, bytes_read: 0 }, total))
    }

    /// Reads up to `max` payload bytes from `src`, unmasked at their absolute payload offsets.
    /// Nothing beyond the payload is consumed.
    pub fn read(&mut self, src: &mut ByteQueue, max: usize) -> (r: Vec<u8>)
        requires
            old(self).wf(),
            old(src).wf(),
        ensures
            final(self).wf(),
            final(src).wf(),
            ({
                let n = read_count(max as int, old(self).remaining(), old(src)@.len() as int);
                &&& r@ == unmask_opt(
                    old(src)@.take(n),
                    old(self).masking_key,
                    old(self).bytes_read as int,
                )
                &&& final(src)@ == old(src)@.skip(n)
                &&& *final(self) == Frame { bytes_read: (old(self).bytes_read + n) as u64, ..*old(self) }
            }),
    {
        let rem: u64 = self.payload_len - self.bytes_read;
        let avail = src.len();
        let mut n: usize = max;
        if (rem as u128) < (n as u128) {
            n = rem as usize;
        }
        if avail < n {
            n = avail;
        }
        let bytes = src.take(n);
        let out = match self.masking_key {
            Some(k) => mask(bytes.as_slice(), k, self.bytes_read),
            None => bytes,
        };
        self.bytes_read = self.bytes_read + n as u64;
        out
    }
}

} // verus!
