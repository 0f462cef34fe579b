use vstd::prelude::*;
use crate::error::{ProtocolError, WsError};
use crate::frame::{lemma_frame_round_trip, read_count, spec_decode, Frame};
use crate::handshake::{handshake_response, spec_handshake};
use crate::mask::{lemma_mask_involution, lemma_mask_split, mask_seq, unmask_opt};
use crate::message::{
    encode_message, encoded_message, frame_for, get_message, spec_next_message, wire_payload,
    Message, MessageStream, MessageType,
};
use crate::server::Request;
use crate::stream::ByteQueue;
use crate::wire::{lemma_u16_round_trip, u16_be};

verus! {

/// Takes the next message from the front of `s` only if all of it has arrived: its kind, its
/// unmasked payload (net of a close's status code) and the bytes it occupies; `None` while
/// it is incomplete.
pub open spec fn spec_take_message(s: Seq<u8>) -> Result<Option<(MessageType, Seq<u8>, int)>, WsError> {
    match spec_decode(s) {
        Err(WsError::UnexpectedEof) => Ok(None),
        Err(e) => Err(e),
        Ok((f, n)) => {
            let end = n + f.payload_len;
            if s.len() < end {
                Ok(None)
            } else {
                match spec_next_message(s) {
                    Err(e) => Err(e),
                    Ok((m, k)) => Ok(
                        Some(
                            (
                                m.kind,
                                unmask_opt(s.subrange(k, end), f.masking_key, k - n),
                                end,
                            ),
                        ),
                    ),
                }
            }
        },
    }
}

/// The server end of an established connection: the received bytes not consumed yet.
/// A server never masks what it sends.
pub struct WebSocketServer {
    input: ByteQueue,
    /// Payload bytes of the last message handed out that have not been read; they are
    /// discarded before the next frame header is decoded.
    pending: u64,
}

/// The client end of a connection; a client masks everything it sends.
pub struct WebSocketClient {
    input: ByteQueue,
    /// Payload bytes of the last message handed out that have not been read.
    pending: u64,
}

impl View for WebSocketServer {
    type V = Seq<u8>;

    closed spec fn view(&self) -> Seq<u8> {
        self.input@
    }
}

impl View for WebSocketClient {
    type V = Seq<u8>;

    closed spec fn view(&self) -> Seq<u8> {
        self.input@
    }
}

proof fn lemma_unmask_parts(a: Seq<u8>, b: Seq<u8>, key: Option<u32>)
    ensures
        unmask_opt(unmask_opt(a + b, key, 0).take(a.len() as int), key, 0) == a,
        unmask_opt(unmask_opt(a + b, key, 0).skip(a.len() as int), key, a.len() as int) == b,
{
    if let Some(k) = key {
        lemma_mask_split(a, b, k, 0);
        let ma = mask_seq(a, k, 0);
        let mb = mask_seq(b, k, a.len() as int);
        assert((ma + mb).take(a.len() as int) =~= ma);
        assert((ma + mb).skip(a.len() as int) =~= mb);
        lemma_mask_involution(a, k, 0);
        lemma_mask_involution(b, k, a.len() as int);
    } else {
        assert((a + b).take(a.len() as int) =~= a);
        assert((a + b).skip(a.len() as int) =~= b);
    }
}

/// A message sent as one frame, masked or not, is taken back whole by the receiving end with
/// the same kind and payload, consuming exactly its frame, whatever bytes follow it.
pub proof fn lemma_message_round_trip(
    kind: MessageType,
    data: Seq<u8>,
    key: Option<u32>,
    rest: Seq<u8>,
)
    requires
        wire_payload(kind, data).len() <= u64::MAX,
    ensures
        spec_take_message(encoded_message(kind, data, key) + rest) == Ok::<
            Option<(MessageType, Seq<u8>, int)>,
            WsError,
        >(Some((kind, data, encoded_message(kind, data, key).len() as int))),
{
    let f = frame_for(kind, data, key);
    let p = wire_payload(kind, data);
    let h = f.spec_header();
    let mp = unmask_opt(p, key, 0);
    let s = encoded_message(kind, data, key) + rest;
    lemma_frame_round_trip(f, p, rest);
    let n = h.len() as int;
    let end = n + p.len();
    assert(s.subrange(n, end) =~= mp);
    match kind {
        MessageType::Close(code) => {
            lemma_unmask_parts(u16_be(code), data, key);
            assert(s.subrange(n, n + 2) =~= mp.take(2));
            assert(s.subrange(n + 2, end) =~= mp.skip(2));
            lemma_u16_round_trip(code);
        },
        _ => {
            assert(s.subrange(n, end) =~= mp);
            if let Some(k) = key {
                lemma_mask_involution(p, k, 0);
            }
        },
    }
}

/// Taking a message whole consumes exactly its frame: what remains is the next frame, intact,
/// which is then taken whole in turn.
pub proof fn lemma_next_frame_intact(
    k1: MessageType,
    d1: Seq<u8>,
    key1: Option<u32>,
    k2: MessageType,
    d2: Seq<u8>,
    key2: Option<u32>,
    rest: Seq<u8>,
)
    requires
        wire_payload(k1, d1).len() <= u64::MAX,
        wire_payload(k2, d2).len() <= u64::MAX,
    ensures
        ({
            let first = encoded_message(k1, d1, key1);
            let second = encoded_message(k2, d2, key2);
            let s = first + second + rest;
            &&& spec_take_message(s) == Ok::<Option<(MessageType, Seq<u8>, int)>, WsError>(
                Some((k1, d1, first.len() as int)),
            )
            &&& s.skip(first.len() as int) == second + rest
            &&& spec_take_message(s.skip(first.len() as int)) == Ok::<
                Option<(MessageType, Seq<u8>, int)>,
                WsError,
            >(Some((k2, d2, second.len() as int)))
        }),
{
    let first = encoded_message(k1, d1, key1);
    let second = encoded_message(k2, d2, key2);
    assert(first + second + rest =~= first + (second + rest));
    lemma_message_round_trip(k1, d1, key1, second + rest);
    assert((first + (second + rest)).skip(first.len() as int) =~= second + rest);
    lemma_message_round_trip(k2, d2, key2, rest);
}

/// The received bytes left once what remains of the message in progress is discarded.
pub open spec fn after_drain(s: Seq<u8>, pending: int) -> Seq<u8> {
    if pending <= s.len() {
        s.skip(pending)
    } else {
        Seq::empty()
    }
}

/// What remains of the message in progress once the received bytes are discarded.
pub open spec fn pending_after_drain(s: Seq<u8>, pending: int) -> int {
    if pending <= s.len() {
        0
    } else {
        pending - s.len()
    }
}

/// Taking the next message from a connection end holding `s` while `pending` bytes of the
/// previous message are unread: the unread bytes are discarded first. The result, the bytes
/// left and the unread bytes of the message handed out.
pub open spec fn spec_get_message(s: Seq<u8>, pending: int) -> (Result<MessageStream, WsError>, Seq<u8>, int) {
    if pending_after_drain(s, pending) > 0 {
        (Err(WsError::UnexpectedEof), Seq::empty(), pending_after_drain(s, pending))
    } else {
        let t = after_drain(s, pending);
        match spec_next_message(t) {
            Ok((m, n)) => (Ok(m), t.skip(n), m.spec_remaining()),
            Err(e) => (Err(e), t, 0),
        }
    }
}

fn drain_pending(input: &mut ByteQueue, pending: &mut u64)
    requires
        old(input).wf(),
    ensures
        final(input).wf(),
        final(input)@ == after_drain(old(input)@, *old(pending) as int),
        *final(pending) == pending_after_drain(old(input)@, *old(pending) as int),
{
    let avail = input.len();
    if (*pending as u128) <= (avail as u128) {
        input.skip(*pending as usize);
        *pending = 0;
    } else {
        input.skip(avail);
        *pending = *pending - avail as u64;
        assert(input@ =~= Seq::<u8>::empty());
    }
}

fn next_message(input: &mut ByteQueue, pending: &mut u64) -> (r: Result<MessageStream, WsError>)
    requires
        old(input).wf(),
    ensures
        final(input).wf(),
        r is Ok ==> r->Ok_0.wf(),
        (r, final(input)@, *final(pending) as int) == spec_get_message(
            old(input)@,
            *old(pending) as int,
        ),
{
    drain_pending(input, pending);
    if *pending > 0 {
        return Err(WsError::UnexpectedEof);
    }
    let r = get_message(input);
    match r {
        Ok(m) => {
            *pending = m.remaining();
        },
        Err(_) => {},
    }
    r
}

fn read_message(input: &mut ByteQueue, pending: &mut u64, msg: &mut MessageStream, max: usize) -> (r: Vec<u8>)
    requires
        old(input).wf(),
        old(msg).wf(),
    ensures
        final(input).wf(),
        final(msg).wf(),
        ({
            let n = read_count(max as int, old(msg).spec_remaining(), old(input)@.len() as int);
            &&& r@ == unmask_opt(
                old(input)@.take(n),
                old(msg).frame.masking_key,
                old(msg).frame.bytes_read as int,
            )
            &&& final(input)@ == old(input)@.skip(n)
            &&& final(msg).kind == old(msg).kind
            &&& final(msg).frame == Frame {
                bytes_read: (old(msg).frame.bytes_read + n) as u64,
                ..old(msg).frame
            }
        }),
        *final(pending) == final(msg).spec_remaining(),
{
    let r = msg.read(input, max);
    *pending = msg.remaining();
    r
}

/// Taking a message whole from a connection end holding `s` while `pending` bytes of the
/// previous message are unread: the unread bytes are discarded first.
pub open spec fn spec_take_pending(s: Seq<u8>, pending: int) -> (
    Result<Option<(MessageType, Seq<u8>)>, WsError>,
    Seq<u8>,
    int,
) {
    if pending_after_drain(s, pending) > 0 {
        (Ok(None), Seq::empty(), pending_after_drain(s, pending))
    } else {
        let t = after_drain(s, pending);
        match spec_take_message(t) {
            Ok(Some((kind, payload, n))) => (Ok(Some((kind, payload))), t.skip(n), 0),
            Ok(None) => (Ok(None), t, 0),
            Err(e) => (Err(e), t, 0),
        }
    }
}

fn take_whole(input: &mut ByteQueue) -> (r: Result<Option<(MessageType, Vec<u8>)>, WsError>)
    requires
        old(input).wf(),
    ensures
        final(input).wf(),
        match spec_take_message(old(input)@) {
            Ok(Some((kind, payload, n))) => r is Ok && r->Ok_0 is Some && r->Ok_0->Some_0.0
                == kind && r->Ok_0->Some_0.1@ == payload && final(input)@ == old(input)@.skip(n),
            Ok(None) => r is Ok && r->Ok_0 is None && final(input)@ == old(input)@,
            Err(e) => r == Err::<Option<(MessageType, Vec<u8>)>, WsError>(e) && final(input)@
                == old(input)@,
        },
{
    let ghost s = input@;
    let (f, n) = match Frame::peek_header(input) {
        Ok(h) => h,
        Err(WsError::UnexpectedEof) => {
            return Ok(None);
        },
        Err(e) => {
            return Err(e);
        },
    };
    let avail = input.len();
    if ((avail - n) as u64) < f.payload_len {
        return Ok(None);
    }
    let mut msg = match get_message(input) {
        Ok(m) => m,
        Err(e) => {
            return Err(e);
        },
    };
    let ghost k = s.len() - input@.len();
    let ghost rest = input@;
    let ghost end = n + f.payload_len;
    let payload = msg.read_to_end(input);
    assert(rest.take(end - k) =~= s.subrange(k, end));
    assert(s.skip(end) =~= rest.skip(end - k));
    Ok(Some((msg.kind, payload)))
}

fn take_pending(input: &mut ByteQueue, pending: &mut u64) -> (r: Result<Option<(MessageType, Vec<u8>)>, WsError>)
    requires
        old(input).wf(),
    ensures
        final(input).wf(),
        ({
            let (res, rest, p) = spec_take_pending(old(input)@, *old(pending) as int);
            &&& match res {
                Ok(Some((kind, payload))) => r is Ok && r->Ok_0 is Some && r->Ok_0->Some_0.0
                    == kind && r->Ok_0->Some_0.1@ == payload,
                Ok(None) => r is Ok && r->Ok_0 is None,
                Err(e) => r == Err::<Option<(MessageType, Vec<u8>)>, WsError>(e),
            }
            &&& final(input)@ == rest
            &&& *final(pending) == p
        }),
{
    drain_pending(input, pending);
    if *pending > 0 {
        return Ok(None);
    }
    take_whole(input)
}

proof fn lemma_encoded_next_message(kind: MessageType, data: Seq<u8>, key: Option<u32>, rest: Seq<u8>)
    requires
        wire_payload(kind, data).len() <= u64::MAX,
    ensures
        ({
            let e = encoded_message(kind, data, key);
            let s = e + rest;
            &&& spec_next_message(s) is Ok
            &&& ({
                let (m, h) = spec_next_message(s)->Ok_0;
                &&& m.kind == kind
                &&& m.spec_remaining() == data.len()
                &&& 0 <= h && h + data.len() == e.len()
                &&& unmask_opt(s.subrange(h, e.len() as int), m.frame.masking_key, m.frame.bytes_read as int) == data
            })
        }),
{
    let e = encoded_message(kind, data, key);
    let s = e + rest;
    lemma_message_round_trip(kind, data, key, rest);
    let (f, n) = spec_decode(s)->Ok_0;
    let (m, k) = spec_next_message(s)->Ok_0;
    assert(m.frame.bytes_read == k - n);
    assert(m.frame.masking_key == f.masking_key);
}

proof fn lemma_drain_step(s: Seq<u8>, m: MessageStream, h: int, len: int, k: int)
    requires
        spec_next_message(s) == Ok::<(MessageStream, int), WsError>((m, h)),
        m.spec_remaining() == len,
        0 <= h,
        h + len <= s.len(),
        0 <= k <= len,
    ensures
        spec_get_message(s, 0) == (Ok::<MessageStream, WsError>(m), s.skip(h), len),
        pending_after_drain(s.skip(h).skip(k), len - k) == 0,
        after_drain(s.skip(h).skip(k), len - k) == s.skip(h + len),
{
    assert(s.skip(0) =~= s);
    assert(s.skip(h).skip(k).skip(len - k) =~= s.skip(h + len));
}

/// A message handed out and then read only in part, or not at all, leaves the following frame
/// intact: taking the next message first discards the unread rest of the first one, and then
/// decodes the second frame with its kind and payload as they were sent.
pub proof fn lemma_unread_remainder_drained(
    k1: MessageType,
    d1: Seq<u8>,
    key1: Option<u32>,
    k2: MessageType,
    d2: Seq<u8>,
    key2: Option<u32>,
    rest: Seq<u8>,
    k: int,
)
    requires
        wire_payload(k1, d1).len() <= u64::MAX,
        wire_payload(k2, d2).len() <= u64::MAX,
        0 <= k <= d1.len(),
    ensures
        ({
            let s = encoded_message(k1, d1, key1) + encoded_message(k2, d2, key2) + rest;
            let (r1, s1, p1) = spec_get_message(s, 0);
            let (r2, s2, p2) = spec_get_message(s1.skip(k), p1 - k);
            &&& r1 is Ok && r1->Ok_0.kind == k1 && p1 == d1.len()
            &&& r2 is Ok && r2->Ok_0.kind == k2 && p2 == d2.len()
            &&& unmask_opt(s2.take(p2), r2->Ok_0.frame.masking_key, r2->Ok_0.frame.bytes_read as int)
                == d2
            &&& s2.skip(p2) == rest
        }),
{
    let e1 = encoded_message(k1, d1, key1);
    let e2 = encoded_message(k2, d2, key2);
    let s = e1 + e2 + rest;
    let tail = e2 + rest;
    assert(s =~= e1 + tail);
    lemma_encoded_next_message(k1, d1, key1, tail);
    let (m1, h1) = spec_next_message(s)->Ok_0;
    lemma_drain_step(s, m1, h1, d1.len() as int, k);
    assert(s.skip(h1 + d1.len()) =~= tail);
    lemma_encoded_next_message(k2, d2, key2, rest);
    let (m2, h2) = spec_next_message(tail)->Ok_0;
    let s2 = tail.skip(h2);
    assert(s2.take(d2.len() as int) =~= tail.subrange(h2, e2.len() as int));
    assert(s2.skip(d2.len() as int) =~= rest);
}

impl WebSocketServer {
    pub closed spec fn wf(&self) -> bool {
        self.input.wf()
    }

    /// Payload bytes of the last message handed out that have not been read.
    pub closed spec fn pending(&self) -> int {
        self.pending as int
    }

    /// Performs the upgrade: on success, the established connection (with nothing received yet)
    /// and the `101` response to write to the peer.
    pub fn handshake(request: &Request) -> (r: Result<(WebSocketServer, Vec<u8>), ProtocolError>)
        ensures
            match spec_handshake(*request) {
                Ok(b) => r is Ok && r->Ok_0.0.wf() && r->Ok_0.0@ == Seq::<u8>::empty()
                    && r->Ok_0.0.pending() == 0 && r->Ok_0.1@ == b,
                Err(e) => r is Err && r->Err_0 == e,
            },
    {
        match handshake_response(request) {
            Ok(bytes) => Ok((WebSocketServer { input: ByteQueue::new(), pending: 0 }, bytes)),
            Err(e) => Err(e),
        }
    }

    /// Takes the next message's header. What remains unread of the message handed out before
    /// is discarded first; a failure to decode consumes nothing more.
    pub fn get_message(&mut self) -> (r: Result<MessageStream, WsError>)
        requires
            old(self).wf(),
        ensures
            final(self).wf(),
            r is Ok ==> r->Ok_0.wf(),
            (r, final(self)@, final(self).pending()) == spec_get_message(
                old(self)@,
                old(self).pending(),
            ),
    {
        next_message(&mut self.input, &mut self.pending)
    }

    /// Reads up to `max` bytes of `msg`, the message in progress; past its end nothing is
    /// consumed.
    pub fn read(&mut self, msg: &mut MessageStream, max: usize) -> (r: Vec<u8>)
        requires
            old(self).wf(),
            old(msg).wf(),
        ensures
            final(self).wf(),
            final(msg).wf(),
            ({
                let n = read_count(max as int, old(msg).spec_remaining(), old(self)@.len() as int);
                &&& r@ == unmask_opt(
                    old(self)@.take(n),
                    old(msg).frame.masking_key,
                    old(msg).frame.bytes_read as int,
                )
                &&& final(self)@ == old(self)@.skip(n)
                &&& final(msg).kind == old(msg).kind
                &&& final(msg).frame == Frame {
                    bytes_read: (old(msg).frame.bytes_read + n) as u64,
                    ..old(msg).frame
                }
            }),
            final(self).pending() == final(msg).spec_remaining(),
    {
        read_message(&mut self.input, &mut self.pending, msg, max)
    }

    /// Records bytes received from the peer.
    pub fn receive(&mut self, bytes: &[u8])
        requires
            old(self).wf(),
        ensures
            final(self).wf(),
            final(self)@ == old(self)@ + bytes@,
            final(self).pending() == old(self).pending(),
    {
        self.input.extend(bytes);
    }

    /// Number of received bytes not consumed yet.
    pub fn buffered(&self) -> (r: usize)
        requires
            self.wf(),
        ensures
            r == self@.len(),
    {
        self.input.len()
    }

    /// Takes the next message whole, if all of it has arrived, after discarding what remains
    /// unread of the message handed out before; otherwise consumes nothing more.
    pub fn take_message(&mut self) -> (r: Result<Option<(MessageType, Vec<u8>)>, WsError>)
        requires
            old(self).wf(),
        ensures
            final(self).wf(),
            ({
                let (res, rest, p) = spec_take_pending(old(self)@, old(self).pending());
                &&& match res {
                    Ok(Some((kind, payload))) => r is Ok && r->Ok_0 is Some && r->Ok_0->Some_0.0
                        == kind && r->Ok_0->Some_0.1@ == payload,
                    Ok(None) => r is Ok && r->Ok_0 is None,
                    Err(e) => r == Err::<Option<(MessageType, Vec<u8>)>, WsError>(e),
                }
                &&& final(self)@ == rest
                &&& final(self).pending() == p
            }),
    {
        take_pending(&mut self.input, &mut self.pending)
    }

    /// The frame bytes that send `msg` to the peer, unmasked.
    pub fn send_message(&self, msg: &Message) -> (r: Vec<u8>)
        requires
            msg.data@.len() + 2 <= u64::MAX,
        ensures
            r@ == encoded_message(msg.kind, msg.data@, None),
    {
        encode_message(msg, None)
    }
}

impl WebSocketClient {
    pub closed spec fn wf(&self) -> bool {
        self.input.wf()
    }

    /// Payload bytes of the last message handed out that have not been read.
    pub closed spec fn pending(&self) -> int {
        self.pending as int
    }

    /// A client end with nothing received yet.
    pub fn new() -> (r: WebSocketClient)
        ensures
            r.wf(),
            r@ == Seq::<u8>::empty(),
            r.pending() == 0,
    {
        WebSocketClient { input: ByteQueue::new(), pending: 0 }
    }

    /// Takes the next message's header. What remains unread of the message handed out before
    /// is discarded first; a failure to decode consumes nothing more.
    pub fn get_message(&mut self) -> (r: Result<MessageStream, WsError>)
        requires
            old(self).wf(),
        ensures
            final(self).wf(),
            r is Ok ==> r->Ok_0.wf(),
            (r, final(self)@, final(self).pending()) == spec_get_message(
                old(self)@,
                old(self).pending(),
            ),
    {
        next_message(&mut self.input, &mut self.pending)
    }

    /// Reads up to `max` bytes of `msg`, the message in progress; past its end nothing is
    /// consumed.
    pub fn read(&mut self, msg: &mut MessageStream, max: usize) -> (r: Vec<u8>)
        requires
            old(self).wf(),
            old(msg).wf(),
        ensures
            final(self).wf(),
            final(msg).wf(),
            ({
                let n = read_count(max as int, old(msg).spec_remaining(), old(self)@.len() as int);
                &&& r@ == unmask_opt(
                    old(self)@.take(n),
                    old(msg).frame.masking_key,
                    old(msg).frame.bytes_read as int,
                )
                &&& final(self)@ == old(self)@.skip(n)
                &&& final(msg).kind == old(msg).kind
                &&& final(msg).frame == Frame {
                    bytes_read: (old(msg).frame.bytes_read + n) as u64,
                    ..old(msg).frame
                }
            }),
            final(self).pending() == final(msg).spec_remaining(),
    {
        read_message(&mut self.input, &mut self.pending, msg, max)
    }

    /// Records bytes received from the server.
    pub fn receive(&mut self, bytes: &[u8])
        requires
            old(self).wf(),
        ensures
            final(self).wf(),
            final(self)@ == old(self)@ + bytes@,
            final(self).pending() == old(self).pending(),
    {
        self.input.extend(bytes);
    }

    /// Number of received bytes not consumed yet.
    pub fn buffered(&self) -> (r: usize)
        requires
            self.wf(),
        ensures
            r == self@.len(),
    {
        self.input.len()
    }

    /// Takes the next message whole, if all of it has arrived, after discarding what remains
    /// unread of the message handed out before; otherwise consumes nothing more.
    pub fn take_message(&mut self) -> (r: Result<Option<(MessageType, Vec<u8>)>, WsError>)
        requires
            old(self).wf(),
        ensures
            final(self).wf(),
            ({
                let (res, rest, p) = spec_take_pending(old(self)@, old(self).pending());
                &&& match res {
                    Ok(Some((kind, payload))) => r is Ok && r->Ok_0 is Some && r->Ok_0->Some_0.0
                        == kind && r->Ok_0->Some_0.1@ == payload,
                    Ok(None) => r is Ok && r->Ok_0 is None,
                    Err(e) => r == Err::<Option<(MessageType, Vec<u8>)>, WsError>(e),
                }
                &&& final(self)@ == rest
                &&& final(self).pending() == p
            }),
    {
        take_pending(&mut self.input, &mut self.pending)
    }

    /// The frame bytes that send `msg` to the server, masked with `key`.
    pub fn send_message(&self, msg: &Message, key: u32) -> (r: Vec<u8>)
        requires
            msg.data@.len() + 2 <= u64::MAX,
        ensures
            r@ == encoded_message(msg.kind, msg.data@, Some(key)),
    {
        encode_message(msg, Some(key))
    }
}

} // verus!
