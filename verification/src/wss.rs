//! WSS (WebSocket-over-TLS) tunnel transport.
//!
//! The stack is TCP → TLS → WebSocket. Each tunnel payload chunk travels as one
//! binary WebSocket message; [`WsStream`] turns that message stream back into
//! a byte stream for the Noise session.

use vstd::prelude::*;
use vstd::string::*;

use crate::buffer::Buffer;

verus! {

/// A WebSocket message, as far as it matters to the tunnel.
#[derive(Debug, Clone)]
pub enum WsMessage {
    /// A payload chunk.
    Binary(Vec<u8>),
    /// The peer closes the connection.
    Close,
    /// Ping and pong are answered below this layer; text is unexpected.
    Other,
}

/// What a message means to a reader.
#[derive(Debug, Clone, Copy, PartialEq, Eq, Structural)]
pub enum WsRead {
    /// Look again for bytes.
    Continue,
    /// The stream has ended.
    Eof,
}

/// A WebSocket connection presented as a byte stream: its reading side.
#[derive(Debug, Clone)]
pub struct WsStream {
    read_buf: Buffer,
}

impl View for WsStream {
    type V = Seq<u8>;

    /// The bytes that have arrived and not been delivered.
    closed spec fn view(&self) -> Seq<u8> {
        self.read_buf@
    }
}

impl WsStream {
    /// Whether the stream is in a state it can get into.
    pub closed spec fn wf(self) -> bool {
        self.read_buf.wf()
    }

    /// A stream on which nothing has arrived.
    pub fn new() -> (s: WsStream)
        ensures
            s.wf(),
            s@ == Seq::<u8>::empty(),
    {
        WsStream { read_buf: Buffer::new() }
    }

    /// Serves a reader with `room` bytes of space, or says that the next message
    /// is needed first.
    pub fn poll_read(&mut self, room: usize) -> (r: Option<Vec<u8>>)
        requires
            old(self).wf(),
        ensures
            final(self).wf(),
            r is None <==> old(self)@.len() == 0,
            r is None ==> final(self)@ == old(self)@,
            r matches Some(data) ==> {
                let n = vstd::math::min(room as int, old(self)@.len() as int);
                data@ == old(self)@.take(n) && final(self)@ == old(self)@.skip(n)
            },
    {
        if self.read_buf.is_empty() {
            return None;
        }
        Some(self.read_buf.take(room))
    }

    /// Takes in the next message, which was asked for because nothing was left
    /// to deliver.
    pub fn on_message(&mut self, msg: WsMessage) -> (r: WsRead)
        requires
            old(self).wf(),
            old(self)@.len() == 0,
        ensures
            final(self).wf(),
            r == WsRead::Eof <==> msg is Close,
            msg matches WsMessage::Binary(data) ==> final(self)@ == data@,
            !(msg is Binary) ==> final(self)@ == old(self)@,
    {
        match msg {
            WsMessage::Binary(data) => {
                self.read_buf.load(data);
                WsRead::Continue
            },
            WsMessage::Close => WsRead::Eof,
            WsMessage::Other => WsRead::Continue,
        }
    }
}

/// The address the WebSocket upgrade is asked for.
pub fn request_url(server_name: &str, path: &str) -> (url: String)
    ensures
        url@ == "ws://"@ + server_name@ + path@,
{
    let mut url = "ws://".to_owned();
    url.append(server_name);
    url.append(path);
    url
}

// ---------------------------------------------------------------------------
// The byte stream is the concatenation of the binary messages
// ---------------------------------------------------------------------------

/// One thing that happens to the reading side of a stream.
pub enum WsEvent {
    /// A message comes in.
    Message(WsMessage),
    /// A reader with this much space is served.
    Read(nat),
}

/// What a reading side has come to.
pub struct WsRun {
    /// The bytes that have arrived and not been delivered.
    pub left: Seq<u8>,
    /// The payloads of the binary messages, one after the other.
    pub received: Seq<u8>,
    /// The bytes delivered, in order.
    pub delivered: Seq<u8>,
    /// Whether a message only came in when nothing was left to deliver.
    pub asked: bool,
}

/// The run that `events` make of a stream on which nothing has arrived.
pub open spec fn ws_run(events: Seq<WsEvent>) -> WsRun
    decreases events.len(),
{
    if events.len() == 0 {
        WsRun { left: Seq::empty(), received: Seq::empty(), delivered: Seq::empty(), asked: true }
    } else {
        let before = ws_run(events.drop_last());
        match events.last() {
            WsEvent::Message(WsMessage::Binary(data)) => WsRun {
                left: data@,
                received: before.received + data@,
                asked: before.asked && before.left.len() == 0,
                ..before
            },
            WsEvent::Message(_) => WsRun {
                asked: before.asked && before.left.len() == 0,
                ..before
            },
            WsEvent::Read(room) => {
                let n = vstd::math::min(room as int, before.left.len() as int);
                WsRun {
                    left: before.left.skip(n),
                    delivered: before.delivered + before.left.take(n),
                    ..before
                }
            },
        }
    }
}

/// Readers get the payloads of the binary messages in order, without gaps and
/// without anything in between, however little space they have.
pub proof fn messages_become_a_byte_stream(events: Seq<WsEvent>)
    requires
        ws_run(events).asked,
    ensures
        ws_run(events).delivered + ws_run(events).left == ws_run(events).received,
    decreases events.len(),
{
    if events.len() > 0 {
        let before = ws_run(events.drop_last());
        let after = ws_run(events);
        messages_become_a_byte_stream(events.drop_last());
        match events.last() {
            WsEvent::Message(WsMessage::Binary(data)) => {
                assert(before.delivered + before.left =~= before.delivered);
            },
            WsEvent::Message(_) => {},
            WsEvent::Read(room) => {
                let n = vstd::math::min(room as int, before.left.len() as int);
                assert(before.delivered + before.left.take(n) + before.left.skip(n)
                    =~= before.delivered + before.left);
            },
        }
    } else {
        assert(Seq::<u8>::empty() + Seq::<u8>::empty() =~= Seq::<u8>::empty());
    }
}

} // verus!
