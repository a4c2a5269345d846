//! Control-plane protocol exchanged over multiplexed substreams.
//!
//! Frames are a 4-byte big-endian length prefix followed by the encoded
//! message. They travel inside the encrypted, multiplexed tunnel. Datagrams of
//! UDP proxies are framed the same way.

use vstd::prelude::*;
use vstd::slice::{slice_subrange, slice_to_vec};
use vstd::string::*;

use crate::bytes::{self, push_be32, read_be32};
use crate::text::{self, number};
use crate::types::ProxyKind;

verus! {

/// Upper bound on a control frame. Messages are tiny; this only guards against
/// a corrupt or hostile length prefix.
pub const MAX_FRAME: usize = 65536;

/// Largest datagram payload that may be framed. UDP datagrams stay well under
/// this; the limit only guards against a corrupt length prefix.
pub const MAX_DATAGRAM: usize = 65536;

/// Messages exchanged on the control substream.
#[derive(Debug, Clone)]
pub enum ControlMsg {
    /// Client → server: authenticate as a configured user.
    Login {
        username: String,
        token: String,
    },
    /// Server → client: authentication accepted.
    LoginOk,
    /// Server → client: authentication rejected.
    LoginErr {
        reason: String,
    },
    /// Client → server: request a public port forwarding a local service.
    RegisterProxy {
        name: String,
        kind: ProxyKind,
        remote_port: u16,
    },
    /// Server → client: the proxy is live on `remote_port`.
    RegisterOk {
        name: String,
        remote_port: u16,
    },
    /// Server → client: the proxy could not be registered.
    RegisterErr {
        name: String,
        reason: String,
    },
    /// Keep-alive request / response.
    Ping,
    Pong,
}

/// A [`ControlMsg`] by the characters of its texts.
pub enum MsgView {
    Login { username: Seq<char>, token: Seq<char> },
    LoginOk,
    LoginErr { reason: Seq<char> },
    RegisterProxy { name: Seq<char>, kind: ProxyKind, remote_port: u16 },
    RegisterOk { name: Seq<char>, remote_port: u16 },
    RegisterErr { name: Seq<char>, reason: Seq<char> },
    Ping,
    Pong,
}

impl View for ControlMsg {
    type V = MsgView;

    open spec fn view(&self) -> MsgView {
        match *self {
            ControlMsg::Login { username, token } => MsgView::Login {
                username: username@,
                token: token@,
            },
            ControlMsg::LoginOk => MsgView::LoginOk,
            ControlMsg::LoginErr { reason } => MsgView::LoginErr { reason: reason@ },
            ControlMsg::RegisterProxy { name, kind, remote_port } => MsgView::RegisterProxy {
                name: name@,
                kind,
                remote_port,
            },
            ControlMsg::RegisterOk { name, remote_port } => MsgView::RegisterOk {
                name: name@,
                remote_port,
            },
            ControlMsg::RegisterErr { name, reason } => MsgView::RegisterErr {
                name: name@,
                reason: reason@,
            },
            ControlMsg::Ping => MsgView::Ping,
            ControlMsg::Pong => MsgView::Pong,
        }
    }
}

/// A message is known by its kind and by what each of its fields holds: messages
/// that look alike are alike.
pub proof fn messages_are_known_by_their_fields(msg: ControlMsg)
    ensures
        msg matches ControlMsg::Login { username, token } ==> msg@ == (MsgView::Login {
            username: username@,
            token: token@,
        }),
        msg is LoginOk <==> msg@ is LoginOk,
        msg matches ControlMsg::LoginErr { reason } ==> msg@ == (MsgView::LoginErr {
            reason: reason@,
        }),
        msg matches ControlMsg::RegisterProxy { name, kind, remote_port } ==> msg@ == (
        MsgView::RegisterProxy { name: name@, kind, remote_port }),
        msg matches ControlMsg::RegisterOk { name, remote_port } ==> msg@ == (
        MsgView::RegisterOk { name: name@, remote_port }),
        msg matches ControlMsg::RegisterErr { name, reason } ==> msg@ == (
        MsgView::RegisterErr { name: name@, reason: reason@ }),
        msg is Ping <==> msg@ is Ping,
        msg is Pong <==> msg@ is Pong,
{
}

/// First frame on every data substream: which proxy the substream serves.
#[derive(Debug, Clone)]
pub struct DataHead {
    pub proxy: String,
}

/// A payload, or a length prefix, beyond the limit.
#[derive(Debug, Clone, Copy, PartialEq, Eq, Structural)]
pub struct TooLarge {
    /// The size that was refused, in bytes.
    pub len: usize,
}

/// What is said of a payload of `len` bytes that is too large a `what`.
pub open spec fn too_large_text(what: Seq<char>, len: nat) -> Seq<char> {
    what + " too large: "@ + text::decimal(len) + " bytes"@
}

impl TooLarge {
    /// The error as a control frame reports it.
    pub fn frame_message(&self) -> (s: String)
        ensures
            s@ == too_large_text("control frame"@, self.len as nat),
            s@ == "control frame"@ + " too large: "@ + text::decimal(self.len as nat) + " bytes"@,
    {
        let mut s = "control frame".to_owned();
        s.append(" too large: ");
        s.append(number(self.len as u64).as_str());
        s.append(" bytes");
        s
    }

    /// The error as a datagram reports it.
    pub fn datagram_message(&self) -> (s: String)
        ensures
            s@ == too_large_text("datagram"@, self.len as nat),
            s@ == "datagram"@ + " too large: "@ + text::decimal(self.len as nat) + " bytes"@,
    {
        let mut s = "datagram".to_owned();
        s.append(" too large: ");
        s.append(number(self.len as u64).as_str());
        s.append(" bytes");
        s
    }
}

// ---------------------------------------------------------------------------
// Framing
// ---------------------------------------------------------------------------

/// A payload as it travels: its length as four bytes, then the payload.
pub open spec fn framed(payload: Seq<u8>) -> Seq<u8> {
    bytes::be32(payload.len()) + payload
}

/// What is to be done with the part of a frame that has arrived, in terms of
/// the values in it.
pub enum FrameView {
    /// This many more bytes are needed.
    Need(nat),
    /// The frame is complete and holds this payload.
    Payload(Seq<u8>),
    /// The length prefix, which is given, exceeds the limit.
    TooLarge(nat),
}

/// What is to be done with the part of a frame that has arrived.
#[derive(Debug, Clone)]
pub enum FrameRead {
    /// Read this many more bytes before asking again.
    Need(usize),
    /// The frame is complete and holds this payload.
    Payload(Vec<u8>),
    /// The length prefix exceeds the limit.
    Refused(TooLarge),
}

impl View for FrameRead {
    type V = FrameView;

    open spec fn view(&self) -> FrameView {
        match *self {
            FrameRead::Need(n) => FrameView::Need(n as nat),
            FrameRead::Payload(data) => FrameView::Payload(data@),
            FrameRead::Refused(e) => FrameView::TooLarge(e.len as nat),
        }
    }
}

/// What `got`, the front of a stream of frames of at most `limit` bytes, holds.
///
/// The length prefix is read first, and is refused before any of the body.
pub open spec fn frame_at(got: Seq<u8>, limit: nat) -> FrameView {
    if got.len() < 4 {
        FrameView::Need((4 - got.len()) as nat)
    } else {
        let len = bytes::from_be32(got);
        if len > limit {
            FrameView::TooLarge(len)
        } else if got.len() < 4 + len {
            FrameView::Need((4 + len - got.len()) as nat)
        } else {
            FrameView::Payload(got.subrange(4, 4 + len as int))
        }
    }
}

fn write_limited(payload: &[u8], limit: usize) -> (r: Result<Vec<u8>, TooLarge>)
    requires
        limit <= 0xFFFF_FFFF,
    ensures
        payload@.len() > limit ==> r == Err::<Vec<u8>, TooLarge>(
            TooLarge { len: payload@.len() as usize },
        ),
        payload@.len() > limit ==> (r matches Err(e) && e.len == payload@.len()),
        payload@.len() <= limit ==> (r matches Ok(out) && out@ == framed(payload@)),
{
    if payload.len() > limit {
        return Err(TooLarge { len: payload.len() });
    }
    let mut out: Vec<u8> = Vec::new();
    push_be32(&mut out, payload.len() as u32);
    out.extend_from_slice(payload);
    assert(out@ =~= framed(payload@));
    Ok(out)
}

fn read_limited(got: &[u8], limit: usize) -> (r: FrameRead)
    requires
        limit <= 0xFFFF_0000,
    ensures
        r@ == frame_at(got@, limit as nat),
        r matches FrameRead::Payload(data) ==> {
            &&& got@.len() >= 4 + data@.len()
            &&& data@ == got@.subrange(4, 4 + data@.len() as int)
            &&& got@[0] * 0x100_0000 + got@[1] * 0x1_0000 + got@[2] * 0x100 + got@[3]
                == data@.len()
            &&& data@.len() <= limit
        },
        r matches FrameRead::Refused(e) ==> {
            &&& got@.len() >= 4
            &&& got@[0] * 0x100_0000 + got@[1] * 0x1_0000 + got@[2] * 0x100 + got@[3] == e.len
            &&& e.len > limit
        },
        r matches FrameRead::Need(n) ==> n > 0 && if got@.len() < 4 {
            n == 4 - got@.len()
        } else {
            &&& got@[0] * 0x100_0000 + got@[1] * 0x1_0000 + got@[2] * 0x100 + got@[3] <= limit
            &&& n == 4 + (got@[0] * 0x100_0000 + got@[1] * 0x1_0000 + got@[2] * 0x100 + got@[3])
                - got@.len()
        },
{
    if got.len() < 4 {
        return FrameRead::Need(4 - got.len());
    }
    let len: usize = read_be32(got) as usize;
    if len > limit {
        return FrameRead::Refused(TooLarge { len });
    }
    if got.len() < 4 + len {
        return FrameRead::Need(4 + len - got.len());
    }
    FrameRead::Payload(slice_to_vec(slice_subrange(got, 4, 4 + len)))
}

/// Frames one encoded control message. Messages beyond [`MAX_FRAME`] are refused.
pub fn write_frame(msg: &[u8]) -> (r: Result<Vec<u8>, TooLarge>)
    ensures
        msg@.len() > MAX_FRAME ==> r == Err::<Vec<u8>, TooLarge>(
            TooLarge { len: msg@.len() as usize },
        ),
        msg@.len() <= MAX_FRAME ==> (r matches Ok(out) && out@ == framed(msg@)),
        msg@.len() <= 65536 ==> (r matches Ok(out) && out@.len() == 4 + msg@.len() && out@.skip(4) == msg@ && out@[0]
            * 0x100_0000 + out@[1] * 0x1_0000 + out@[2] * 0x100 + out@[3] == msg@.len()),
        msg@.len() > 65536 ==> (r matches Err(e) && e.len == msg@.len()),
{
    proof {
        if msg@.len() <= 65536 {
            frames_are_prefixed_with_their_length(msg@);
        }
    }
    write_limited(msg, MAX_FRAME)
}

/// Takes one encoded control message off the front of `got`, or says how many
/// more bytes are needed. Length prefixes beyond [`MAX_FRAME`] are refused.
pub fn read_frame(got: &[u8]) -> (r: FrameRead)
    ensures
        r@ == frame_at(got@, MAX_FRAME as nat),
        r matches FrameRead::Payload(data) ==> {
            &&& got@.len() >= 4 + data@.len()
            &&& data@ == got@.subrange(4, 4 + data@.len() as int)
            &&& got@[0] * 0x100_0000 + got@[1] * 0x1_0000 + got@[2] * 0x100 + got@[3]
                == data@.len()
            &&& data@.len() <= 65536
        },
        r matches FrameRead::Refused(e) ==> {
            &&& got@.len() >= 4
            &&& got@[0] * 0x100_0000 + got@[1] * 0x1_0000 + got@[2] * 0x100 + got@[3] == e.len
            &&& e.len > 65536
        },
        r matches FrameRead::Need(n) ==> n > 0 && if got@.len() < 4 {
            n == 4 - got@.len()
        } else {
            &&& got@[0] * 0x100_0000 + got@[1] * 0x1_0000 + got@[2] * 0x100 + got@[3] <= 65536
            &&& n == 4 + (got@[0] * 0x100_0000 + got@[1] * 0x1_0000 + got@[2] * 0x100 + got@[3])
                - got@.len()
        },
{
    read_limited(got, MAX_FRAME)
}

/// Frames a raw datagram, length-prefixed with a big-endian `u32`. Datagrams
/// beyond [`MAX_DATAGRAM`] are refused.
///
/// A data substream serving a UDP proxy carries one framed datagram per call,
/// so packet boundaries survive the byte-stream tunnel.
pub fn write_datagram(data: &[u8]) -> (r: Result<Vec<u8>, TooLarge>)
    ensures
        data@.len() > MAX_DATAGRAM ==> r == Err::<Vec<u8>, TooLarge>(
            TooLarge { len: data@.len() as usize },
        ),
        data@.len() <= MAX_DATAGRAM ==> (r matches Ok(out) && out@ == framed(data@)),
        data@.len() <= 65536 ==> (r matches Ok(out) && out@.len() == 4 + data@.len() && out@.skip(4) == data@ && out@[0]
            * 0x100_0000 + out@[1] * 0x1_0000 + out@[2] * 0x100 + out@[3] == data@.len()),
        data@.len() > 65536 ==> (r matches Err(e) && e.len == data@.len()),
{
    proof {
        if data@.len() <= 65536 {
            frames_are_prefixed_with_their_length(data@);
        }
    }
    write_limited(data, MAX_DATAGRAM)
}

/// Takes one datagram written by [`write_datagram`] off the front of `got`, or
/// says how many more bytes are needed. Length prefixes beyond [`MAX_DATAGRAM`]
/// are refused.
pub fn read_datagram(got: &[u8]) -> (r: FrameRead)
    ensures
        r@ == frame_at(got@, MAX_DATAGRAM as nat),
        r matches FrameRead::Payload(data) ==> {
            &&& got@.len() >= 4 + data@.len()
            &&& data@ == got@.subrange(4, 4 + data@.len() as int)
            &&& got@[0] * 0x100_0000 + got@[1] * 0x1_0000 + got@[2] * 0x100 + got@[3]
                == data@.len()
            &&& data@.len() <= 65536
        },
        r matches FrameRead::Refused(e) ==> {
            &&& got@.len() >= 4
            &&& got@[0] * 0x100_0000 + got@[1] * 0x1_0000 + got@[2] * 0x100 + got@[3] == e.len
            &&& e.len > 65536
        },
        r matches FrameRead::Need(n) ==> n > 0 && if got@.len() < 4 {
            n == 4 - got@.len()
        } else {
            &&& got@[0] * 0x100_0000 + got@[1] * 0x1_0000 + got@[2] * 0x100 + got@[3] <= 65536
            &&& n == 4 + (got@[0] * 0x100_0000 + got@[1] * 0x1_0000 + got@[2] * 0x100 + got@[3])
                - got@.len()
        },
{
    read_limited(got, MAX_DATAGRAM)
}

/// A frame is the payload behind its own length, four bytes with the most
/// significant first.
pub proof fn frames_are_prefixed_with_their_length(payload: Seq<u8>)
    requires
        payload.len() <= 0xFFFF_FFFF,
    ensures
        framed(payload).len() == 4 + payload.len(),
        framed(payload).skip(4) == payload,
        framed(payload)[0] * 0x100_0000 + framed(payload)[1] * 0x1_0000 + framed(payload)[2] * 0x100
            + framed(payload)[3] == payload.len(),
{
    bytes::the_most_significant_byte_comes_first(payload.len());
    assert(framed(payload).skip(4) =~= payload);
}

/// A frame within the limit is read back as it was written, whatever follows it.
pub proof fn frame_roundtrip(payload: Seq<u8>, rest: Seq<u8>, limit: nat)
    requires
        payload.len() <= limit <= 0xFFFF_FFFF,
    ensures
        frame_at(framed(payload) + rest, limit) == FrameView::Payload(payload),
        (framed(payload) + rest).skip(4 + payload.len() as int) == rest,
{
    let wire = framed(payload) + rest;
    assert(wire =~= bytes::be32(payload.len()) + (payload + rest));
    bytes::be32_roundtrip(payload.len(), payload + rest);
    assert(wire.subrange(4, 4 + payload.len() as int) =~= payload);
    assert(wire.skip(4 + payload.len() as int) =~= rest);
}

/// Asked before the whole frame is there, the reader asks for no byte beyond it,
/// and once the prefix is there for exactly what is missing.
pub proof fn partial_frame_needs_the_rest(payload: Seq<u8>, k: int, limit: nat)
    requires
        payload.len() <= limit <= 0xFFFF_FFFF,
        0 <= k < 4 + payload.len(),
    ensures
        frame_at(framed(payload).take(k), limit) == FrameView::Need(
            if k < 4 {
                (4 - k) as nat
            } else {
                (4 + payload.len() - k) as nat
            },
        ),
{
    if k >= 4 {
        let got = framed(payload).take(k);
        bytes::be32_roundtrip(payload.len(), payload.take(k - 4));
        assert(got =~= bytes::be32(payload.len()) + payload.take(k - 4));
    } else {
        bytes::be32_roundtrip(payload.len(), Seq::empty());
    }
}

/// Datagrams written one after the other.
pub open spec fn stream_of(datagrams: Seq<Seq<u8>>) -> Seq<u8>
    decreases datagrams.len(),
{
    if datagrams.len() == 0 {
        Seq::empty()
    } else {
        framed(datagrams[0]) + stream_of(datagrams.skip(1))
    }
}

/// The datagrams that reading until the stream is used up gives.
pub open spec fn datagrams_in(wire: Seq<u8>) -> Seq<Seq<u8>>
    decreases wire.len(),
{
    match frame_at(wire, MAX_DATAGRAM as nat) {
        FrameView::Payload(data) => seq![data] + datagrams_in(wire.skip(4 + data.len() as int)),
        _ => Seq::empty(),
    }
}

/// Packet boundaries survive the byte-stream tunnel: datagrams written one after
/// the other are read back one by one, each as it was written.
pub proof fn packet_boundaries_survive(datagrams: Seq<Seq<u8>>)
    requires
        forall|i: int| 0 <= i < datagrams.len() ==> (#[trigger] datagrams[i]).len() <= MAX_DATAGRAM,
    ensures
        datagrams_in(stream_of(datagrams)) == datagrams,
    decreases datagrams.len(),
{
    let wire = stream_of(datagrams);
    if datagrams.len() == 0 {
        assert(datagrams_in(wire) =~= datagrams);
    } else {
        let left = datagrams.skip(1);
        frame_roundtrip(datagrams[0], stream_of(left), MAX_DATAGRAM as nat);
        packet_boundaries_survive(left);
        assert(datagrams_in(wire) =~= datagrams);
    }
}

} // verus!
