use vstd::prelude::*;
use vstd::string::StringSliceAdditionalSpecFns;
use crate::message::{encoded_message, Message, MessageType};
use crate::mpv::ObservedPropID;
use crate::websocket::{spec_take_message, WebSocketServer};

verus! {

/// Whether a connection is still served.
#[derive(Debug, Clone, Copy, PartialEq, Eq, Structural)]
pub enum BridgeState {
    Active,
    Closed,
}

/// What the connection's driver does after the bridge has looked at the received bytes.
#[derive(Debug)]
pub enum BridgeAction {
    /// No whole message has arrived: wait for more bytes or for a feed item.
    Wait,
    /// Hand this message to the translation callback.
    Deliver(MessageType, Vec<u8>),
    /// Tear the connection down.
    Close,
}

/// A notification from the player, as far as the bridge tells kinds apart.
#[derive(Debug, Clone, Copy, PartialEq, Eq, Structural)]
pub enum FeedEvent {
    PropertyChange(ObservedPropID),
    FileLoaded,
    Seek,
    Other,
}

/// What a connection pushes to its peer for a notification.
#[derive(Debug, Clone, Copy, PartialEq, Eq, Structural)]
pub enum FeedReply {
    /// The property's new value, under the property's name.
    PushProperty(ObservedPropID),
    /// The player's whole status.
    PushStatus,
    /// The playback position, read when the notification is handled.
    PushTimePos,
    Nothing,
}

/// Which notifications reach the peer, and as what.
pub open spec fn spec_feed_reply(e: FeedEvent) -> FeedReply {
    match e {
        FeedEvent::PropertyChange(p) => match p {
            ObservedPropID::Volume | ObservedPropID::CoreIdle => FeedReply::Nothing,
            _ => FeedReply::PushProperty(p),
        },
        FeedEvent::FileLoaded => FeedReply::PushStatus,
        FeedEvent::Seek => FeedReply::PushTimePos,
        FeedEvent::Other => FeedReply::Nothing,
    }
}

/// Decides what a notification from the player becomes for the peer.
pub fn feed_reply(e: FeedEvent) -> (r: FeedReply)
    ensures
        r == spec_feed_reply(e),
{
    match e {
        FeedEvent::PropertyChange(p) => match p {
            ObservedPropID::Volume | ObservedPropID::CoreIdle => FeedReply::Nothing,
            _ => FeedReply::PushProperty(p),
        },
        FeedEvent::FileLoaded => FeedReply::PushStatus,
        FeedEvent::Seek => FeedReply::PushTimePos,
        FeedEvent::Other => FeedReply::Nothing,
    }
}

/// One connection's multiplexer between the peer's frames and the notification feed.
/// Each event is processed to completion before the next is taken.
pub struct ConnectionBridge {
    pub state: BridgeState,
    pub ws: WebSocketServer,
}

impl ConnectionBridge {
    /// The bridge only ever takes whole messages, so nothing of one is left unread.
    pub open spec fn wf(&self) -> bool {
        self.ws.wf() && self.ws.pending() == 0
    }

    /// A bridge over a freshly established connection.
    pub fn new(ws: WebSocketServer) -> (r: ConnectionBridge)
        requires
            ws.wf(),
            ws.pending() == 0,
        ensures
            r.wf(),
            r.state == BridgeState::Active,
            r.ws@ == ws@,
    {
        ConnectionBridge { state: BridgeState::Active, ws }
    }

    /// Records bytes read from the socket; a closed bridge ignores them.
    pub fn receive(&mut self, bytes: &[u8])
        requires
            old(self).wf(),
        ensures
            final(self).wf(),
            final(self).state == old(self).state,
            final(self).ws@ == if old(self).state == BridgeState::Active {
                old(self).ws@ + bytes@
            } else {
                old(self).ws@
            },
    {
        if self.state == BridgeState::Active {
            self.ws.receive(bytes);
        }
    }

    /// Takes at most one whole message from the received bytes and decides what to do with it:
    /// deliver it, wait for more, or close on an explicit close message or a protocol error.
    pub fn poll(&mut self) -> (r: BridgeAction)
        requires
            old(self).wf(),
        ensures
            final(self).wf(),
            old(self).state == BridgeState::Closed ==> r is Close && final(self).state
                == BridgeState::Closed && final(self).ws@ == old(self).ws@,
            old(self).state == BridgeState::Active ==> match spec_take_message(old(self).ws@) {
                Ok(None) => r is Wait && final(self).state == BridgeState::Active && final(self).ws@ == old(self).ws@,
                Ok(Some((kind, payload, n))) => final(self).ws@ == old(self).ws@.skip(n) && (if kind is Close {
                    r is Close && final(self).state == BridgeState::Closed
                } else {
                    r is Deliver && r->Deliver_0 == kind && r->Deliver_1@ == payload
                        && final(self).state == BridgeState::Active
                }),
                Err(_) => r is Close && final(self).state == BridgeState::Closed && final(self).ws@
                    == old(self).ws@,
            },
    {
        if self.state == BridgeState::Closed {
            return BridgeAction::Close;
        }
        proof {
            assert(self.ws@.skip(0) =~= self.ws@);
        }
        match self.ws.take_message() {
            Ok(None) => BridgeAction::Wait,
            Ok(Some((MessageType::Close(_), _))) => {
                self.state = BridgeState::Closed;
                BridgeAction::Close
            },
            Ok(Some((kind, payload))) => BridgeAction::Deliver(kind, payload),
            Err(_) => {
                self.state = BridgeState::Closed;
                BridgeAction::Close
            },
        }
    }

    /// The frame bytes that push a serialized feed item to the peer as a text message; nothing
    /// once the bridge is closed.
    pub fn on_feed(&mut self, item: &str) -> (r: Vec<u8>)
        requires
            old(self).wf(),
            item.spec_bytes().len() + 2 <= u64::MAX,
        ensures
            *final(self) == *old(self),
            r@ == if old(self).state == BridgeState::Active {
                encoded_message(MessageType::Text, item.spec_bytes(), None)
            } else {
                Seq::empty()
            },
    {
        if self.state == BridgeState::Closed {
            return Vec::new();
        }
        let msg = Message::text(item);
        self.ws.send_message(&msg)
    }

    /// The frame bytes that send a reply of the translation callback; nothing once closed.
    pub fn send(&mut self, msg: &Message) -> (r: Vec<u8>)
        requires
            old(self).wf(),
            msg.data@.len() + 2 <= u64::MAX,
        ensures
            *final(self) == *old(self),
            r@ == if old(self).state == BridgeState::Active {
                encoded_message(msg.kind, msg.data@, None)
            } else {
                Seq::empty()
            },
    {
        if self.state == BridgeState::Closed {
            return Vec::new();
        }
        self.ws.send_message(msg)
    }

    /// The socket ended or failed: the bridge closes.
    pub fn on_socket_end(&mut self)
        requires
            old(self).wf(),
        ensures
            final(self).wf(),
            final(self).state == BridgeState::Closed,
            final(self).ws@ == old(self).ws@,
    {
        self.state = BridgeState::Closed;
    }
}

} // verus!
