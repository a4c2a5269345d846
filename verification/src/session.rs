//! Noise-encrypted session layer.
//!
//! Wraps any byte stream in a `Noise_NKpsk0` session: the client authenticates
//! the server by its pinned static key, both prove the shared PSK, and all
//! subsequent traffic is encrypted with ChaCha20-Poly1305.
//!
//! Nothing here performs I/O. The handshake is given the peer's messages and
//! hands out its own; a [`NoiseStream`] says how many bytes it wants, is fed
//! what the inner stream had, and hands out plaintext and framed ciphertext.

use vstd::prelude::*;
use vstd::slice::{slice_subrange, slice_to_vec};

use crate::buffer::Buffer;
use crate::bytes::{self, push_be16, read_be16};
use crate::noise::{
    self, parse_params, set_psk, HANDSHAKE_OVERHEAD, MAX_MESSAGE, MAX_PRIVATE_KEY,
    MAX_PUBLIC_KEY, NOISE_PARAMS, TAG_LEN,
};

verus! {

/// A Noise message is at most 65535 bytes; 16 of them are the AEAD tag.
pub const MAX_PLAINTEXT: usize = 65519;

// ---------------------------------------------------------------------------
// Handshake messages on the wire
// ---------------------------------------------------------------------------

/// A handshake message as it travels: its length as two bytes, then the message.
pub open spec fn framed(msg: Seq<u8>) -> Seq<u8> {
    bytes::be16(msg.len()) + msg
}

/// How many more bytes a length-prefixed message needs of which `got` arrived.
pub open spec fn wanted(got: Seq<u8>) -> nat {
    if got.len() < 2 {
        (2 - got.len()) as nat
    } else if got.len() < 2 + bytes::from_be16(got) {
        (2 + bytes::from_be16(got) - got.len()) as nat
    } else {
        0
    }
}

/// What is to be done with the part of a handshake message that has arrived.
pub enum HandshakeRead {
    /// Read this many more bytes before asking again.
    Need(usize),
    /// The message is complete.
    Message(Vec<u8>),
}

/// Frames a handshake message, length-prefixed with a big-endian `u16`.
pub fn write_hs(msg: &[u8]) -> (out: Vec<u8>)
    requires
        msg@.len() <= MAX_MESSAGE,
    ensures
        out@ == framed(msg@),
        out@.len() == 2 + msg@.len(),
        out@.skip(2) == msg@,
        out@[0] * 256 + out@[1] == msg@.len(),
{
    let mut out: Vec<u8> = Vec::new();
    push_be16(&mut out, msg.len() as u16);
    out.extend_from_slice(msg);
    assert(out@ =~= framed(msg@));
    assert(out@.skip(2) =~= msg@);
    out
}

/// Takes a handshake message off the front of `got`, or says how much is missing.
pub fn read_hs(got: &[u8]) -> (r: HandshakeRead)
    ensures
        wanted(got@) > 0 ==> r == HandshakeRead::Need(wanted(got@) as usize) && wanted(got@)
            <= 0xFFFF,
        wanted(got@) == 0 ==> (r matches HandshakeRead::Message(msg) && msg@ == got@.subrange(
            2,
            2 + bytes::from_be16(got@) as int,
        )),
        r matches HandshakeRead::Message(msg) ==> {
            &&& got@.len() >= 2 + msg@.len()
            &&& got@[0] * 256 + got@[1] == msg@.len()
            &&& msg@ == got@.subrange(2, 2 + msg@.len() as int)
        },
        r matches HandshakeRead::Need(n) ==> n > 0 && n == if got@.len() < 2 {
            2 - got@.len()
        } else {
            2 + (got@[0] * 256 + got@[1]) - got@.len()
        },
{
    if got.len() < 2 {
        return HandshakeRead::Need(2 - got.len());
    }
    let len: usize = read_be16(got) as usize;
    if got.len() < 2 + len {
        return HandshakeRead::Need(2 + len - got.len());
    }
    HandshakeRead::Message(slice_to_vec(slice_subrange(got, 2, 2 + len)))
}

/// A framed handshake message is read back as it was written: every proper
/// prefix asks for exactly the bytes that are missing from the prefix or from
/// the body, and the whole frame, whatever follows it, gives the message.
pub proof fn handshake_frame_roundtrip(msg: Seq<u8>, rest: Seq<u8>)
    requires
        msg.len() <= MAX_MESSAGE,
    ensures
        wanted(framed(msg) + rest) == 0,
        (framed(msg) + rest).subrange(
            2,
            2 + bytes::from_be16(framed(msg) + rest) as int,
        ) == msg,
        forall|k: int|
            0 <= k < 2 ==> wanted(#[trigger] framed(msg).take(k)) == 2 - k,
        forall|k: int|
            2 <= k <= framed(msg).len() ==> wanted(#[trigger] framed(msg).take(k)) == framed(
                msg,
            ).len() - k,
{
    let n = msg.len();
    assert(framed(msg) + rest =~= bytes::be16(n) + (msg + rest));
    bytes::be16_roundtrip(n, msg + rest);
    assert((framed(msg) + rest).subrange(2, 2 + n as int) =~= msg);
    assert forall|k: int| 2 <= k <= framed(msg).len() implies wanted(
        #[trigger] framed(msg).take(k),
    ) == framed(msg).len() - k by {
        assert(framed(msg).take(k) =~= bytes::be16(n) + msg.take(k - 2));
        bytes::be16_roundtrip(n, msg.take(k - 2));
    }
}

// ---------------------------------------------------------------------------
// The handshake
// ---------------------------------------------------------------------------

/// The step of a handshake that failed, with what `snow` says of it.
pub enum HandshakeError {
    /// Parsing the protocol name.
    Params(snow::Error),
    /// Setting the server's static key.
    StaticKey(snow::Error),
    /// Setting the pre-shared key.
    Psk(snow::Error),
    /// Building the handshake.
    Build(snow::Error),
    /// Writing or reading the first message.
    Message1(snow::Error),
    /// Writing or reading the second message.
    Message2(snow::Error),
    /// Entering transport mode.
    Transport(snow::Error),
}

/// The initiator (client side), waiting for the second message.
pub struct Initiator {
    handshake: snow::HandshakeState,
}

impl View for Initiator {
    type V = snow::HandshakeState;

    closed spec fn view(&self) -> snow::HandshakeState {
        self.handshake
    }
}

impl Initiator {
    /// Whether the first message is written and the second one is due.
    pub open spec fn wf(self) -> bool {
        &&& noise::handshake_name(self@) == NOISE_PARAMS@
        &&& noise::handshake_initiator(self@)
        &&& noise::handshake_step(self@) == 1
    }

    /// Whether this is a handshake with the server that has the static key
    /// `server` and shares `psk`: its first message reaches every responder that
    /// does.
    pub open spec fn expects(self, server: Seq<u8>, psk: Seq<u8>) -> bool {
        &&& noise::handshake_remote(self@) == Some(server)
        &&& noise::handshake_local(self@) is None
        &&& noise::handshake_psk(self@, 0) == Some(psk)
        &&& forall|peer: Responder|
            peer.wf() && peer.serves(server, psk) ==> #[trigger] noise::reaches(self@, peer@)
    }
}

/// The responder (server side), waiting for the first message.
pub struct Responder {
    handshake: snow::HandshakeState,
}

impl View for Responder {
    type V = snow::HandshakeState;

    closed spec fn view(&self) -> snow::HandshakeState {
        self.handshake
    }
}

impl Responder {
    /// Whether the first message is due.
    pub open spec fn wf(self) -> bool {
        &&& noise::handshake_name(self@) == NOISE_PARAMS@
        &&& !noise::handshake_initiator(self@)
        &&& noise::handshake_step(self@) == 0
        &&& noise::handshake_prologue(self@) == Seq::<u8>::empty()
    }

    /// Whether this is a handshake by the server that has the static private key
    /// `server` and shares `psk`.
    pub open spec fn expects(self, server: Seq<u8>, psk: Seq<u8>) -> bool {
        &&& noise::handshake_local(self@) == Some(server)
        &&& noise::handshake_remote(self@) is None
        &&& noise::handshake_psk(self@, 0) == Some(psk)
    }

    /// Whether clients that pin the static key `server` and share `psk` are
    /// served.
    pub open spec fn serves(self, server: Seq<u8>, psk: Seq<u8>) -> bool {
        &&& noise::handshake_local(self@) is Some
        &&& noise::public_half(noise::handshake_local(self@)->0) == server
        &&& noise::handshake_psk(self@, 0) == Some(psk)
    }
}

/// Starts the handshake as the initiator (client side).
///
/// `server_static_pub` is the server's pinned Noise public key. Gives the state
/// that takes the server's reply and the framed first message. Writing that
/// message draws a random key, which is all that can fail.
pub fn connect(server_static_pub: &[u8], psk: &[u8; 32]) -> (r: Result<
    (Initiator, Vec<u8>),
    HandshakeError,
>)
    requires
        server_static_pub@.len() <= MAX_PUBLIC_KEY,
    ensures
        r matches Err(e) ==> e is Message1,
        r matches Ok((init, out)) ==> {
            &&& init.wf()
            &&& init.expects(server_static_pub@, psk@)
            &&& out@ == framed(noise::handshake_written(init@))
            &&& out@.len() == 2 + HANDSHAKE_OVERHEAD
        },
        r matches Ok((init, out)) ==> {
            &&& noise::handshake_name(init@) == "Noise_NKpsk0_25519_ChaChaPoly_BLAKE2s"@
            &&& noise::handshake_initiator(init@)
            &&& noise::handshake_step(init@) == 1
            &&& noise::handshake_remote(init@) == Some(server_static_pub@)
            &&& noise::handshake_local(init@) is None
            &&& noise::handshake_psk(init@, 0) == Some(psk@)
            &&& out@.len() == 50
            &&& out@[0] * 256 + out@[1] == 48
            &&& out@.skip(2) == noise::handshake_written(init@)
        },
{
    let params = match parse_params(NOISE_PARAMS) {
        Ok(params) => params,
        Err(e) => return Err(HandshakeError::Params(e)),
    };
    let builder = match snow::Builder::new(params).remote_public_key(server_static_pub) {
        Ok(builder) => builder,
        Err(e) => return Err(HandshakeError::StaticKey(e)),
    };
    let builder = match set_psk(builder, 0, psk) {
        Ok(builder) => builder,
        Err(e) => return Err(HandshakeError::Psk(e)),
    };
    let mut handshake = match builder.build_initiator() {
        Ok(handshake) => handshake,
        Err(e) => return Err(HandshakeError::Build(e)),
    };
    let mut scratch: Vec<u8> = vec![0u8; MAX_MESSAGE];
    // -> psk, e, es
    let n: usize = match handshake.write_message(&[], scratch.as_mut_slice()) {
        Ok(n) => n,
        Err(e) => return Err(HandshakeError::Message1(e)),
    };
    let out = write_hs(slice_subrange(scratch.as_slice(), 0, n));
    assert(scratch@.subrange(0, n as int) =~= scratch@.take(n as int));
    Ok((Initiator { handshake }, out))
}

impl Initiator {
    /// Ends the handshake with the server's reply.
    ///
    /// Succeeds exactly when `snow` accepts `msg` as the second message.
    pub fn finish(self, msg: &[u8]) -> (r: Result<NoiseStream, HandshakeError>)
        requires
            self.wf(),
        ensures
            r is Ok <==> noise::readable(self@, msg@),
            r matches Err(e) ==> e is Message2,
            r matches Ok(stream) ==> stream.established(noise::after_reading(self@, msg@), true),
            r matches Ok(stream) ==> {
                let secret = noise::handshake_secret(noise::after_reading(self@, msg@));
                &&& stream@.sealing_key == noise::traffic_key(secret, true)
                &&& stream@.opening_key == noise::traffic_key(secret, false)
                &&& stream@.sealing_nonce == 0 && stream@.opening_nonce == 0
                &&& stream@.partial.len() == 0 && stream@.ready.len() == 0 && stream@.pending.len()
                    == 0
            },
    {
        let mut handshake = self.handshake;
        let mut scratch: Vec<u8> = vec![0u8; MAX_MESSAGE];
        // <- e, ee
        match handshake.read_message(msg, scratch.as_mut_slice()) {
            Ok(_) => {},
            Err(e) => return Err(HandshakeError::Message2(e)),
        }
        match handshake.into_transport_mode() {
            Ok(transport) => Ok(NoiseStream::new(transport)),
            Err(e) => Err(HandshakeError::Transport(e)),
        }
    }
}

/// Prepares the handshake as the responder (server side). Cannot fail.
pub fn accept(server_static_priv: &[u8], psk: &[u8; 32]) -> (r: Result<Responder, HandshakeError>)
    requires
        server_static_priv@.len() <= MAX_PRIVATE_KEY,
    ensures
        r matches Ok(resp) && resp.wf() && resp.expects(server_static_priv@, psk@) && resp.serves(
            noise::public_half(server_static_priv@),
            psk@,
        ),
        r matches Ok(resp) && {
            &&& noise::handshake_name(resp@) == "Noise_NKpsk0_25519_ChaChaPoly_BLAKE2s"@
            &&& !noise::handshake_initiator(resp@)
            &&& noise::handshake_step(resp@) == 0
            &&& noise::handshake_local(resp@) == Some(server_static_priv@)
            &&& noise::handshake_remote(resp@) is None
            &&& noise::handshake_psk(resp@, 0) == Some(psk@)
        },
{
    let params = match parse_params(NOISE_PARAMS) {
        Ok(params) => params,
        Err(e) => return Err(HandshakeError::Params(e)),
    };
    let builder = match snow::Builder::new(params).local_private_key(server_static_priv) {
        Ok(builder) => builder,
        Err(e) => return Err(HandshakeError::StaticKey(e)),
    };
    let builder = match set_psk(builder, 0, psk) {
        Ok(builder) => builder,
        Err(e) => return Err(HandshakeError::Psk(e)),
    };
    match builder.build_responder() {
        Ok(handshake) => Ok(Responder { handshake }),
        Err(e) => Err(HandshakeError::Build(e)),
    }
}

/// Whether the message that `after` wrote last is a reply by `before`: it reaches
/// every peer that was in step.
pub open spec fn replies(before: snow::HandshakeState, after: snow::HandshakeState) -> bool {
    forall|peer: snow::HandshakeState|
        noise::in_step(before, peer) ==> #[trigger] noise::reaches(after, peer)
}

impl Responder {
    /// Reads the client's message and gives the established session and the
    /// framed reply.
    ///
    /// Fails at the first message exactly when `snow` does not accept `msg`.
    /// Writing the reply draws a random key, which can fail too.
    pub fn respond(self, msg: &[u8]) -> (r: Result<(NoiseStream, Vec<u8>), HandshakeError>)
        requires
            self.wf(),
        ensures
            (r matches Err(e) && e is Message1) <==> !noise::readable(self@, msg@),
            r matches Err(e) ==> e is Message1 || e is Message2,
            r matches Ok((stream, out)) ==> exists|h: snow::HandshakeState| #[trigger]
                noise::same_settings(h, noise::after_reading(self@, msg@)) && {
                    &&& stream.established(h, false)
                    &&& out@ == framed(noise::handshake_written(h))
                    &&& out@.len() == 2 + HANDSHAKE_OVERHEAD
                    &&& replies(noise::after_reading(self@, msg@), h)
                    &&& stream@.sealing_key == noise::traffic_key(
                        noise::handshake_secret(h),
                        false,
                    )
                    &&& stream@.opening_key == noise::traffic_key(noise::handshake_secret(h), true)
                    &&& out@.skip(2) == noise::handshake_written(h)
                    &&& out@[0] * 256 + out@[1] == 48
                },
            r matches Ok((stream, out)) ==> stream@.sealing_nonce == 0 && stream@.opening_nonce == 0
                && stream@.partial.len() == 0 && stream@.ready.len() == 0 && stream@.pending.len()
                == 0,
    {
        let mut handshake = self.handshake;
        let mut scratch: Vec<u8> = vec![0u8; MAX_MESSAGE];
        // -> psk, e, es
        match handshake.read_message(msg, scratch.as_mut_slice()) {
            Ok(_) => {},
            Err(e) => return Err(HandshakeError::Message1(e)),
        }
        // <- e, ee
        let n: usize = match handshake.write_message(&[], scratch.as_mut_slice()) {
            Ok(n) => n,
            Err(e) => return Err(HandshakeError::Message2(e)),
        };
        let out = write_hs(slice_subrange(scratch.as_slice(), 0, n));
        assert(scratch@.subrange(0, n as int) =~= scratch@.take(n as int));
        assert(noise::same_settings(handshake, noise::after_reading(self@, msg@)));
        match handshake.into_transport_mode() {
            Ok(transport) => Ok((NoiseStream::new(transport), out)),
            Err(e) => Err(HandshakeError::Transport(e)),
        }
    }
}

// ---------------------------------------------------------------------------
// Records
// ---------------------------------------------------------------------------

/// What became of the bytes fed to a stream.
#[derive(Clone, Copy, Debug, PartialEq, Eq, Structural)]
pub enum Fed {
    /// They were taken.
    Taken,
    /// The inner stream ended on a record boundary.
    Eof,
    /// The inner stream ended within a record.
    UnexpectedEof,
}

/// What is said to `got` being fed when `partial` of a record has arrived; no
/// bytes mean that the inner stream has ended.
pub open spec fn feed_result(partial: Seq<u8>, got: Seq<u8>) -> Fed {
    if got.len() > 0 {
        Fed::Taken
    } else if partial.len() == 0 {
        Fed::Eof
    } else {
        Fed::UnexpectedEof
    }
}

/// What has arrived of a record once `got` is fed; what an end of the inner stream
/// cuts off is dropped.
pub open spec fn after_feed(partial: Seq<u8>, got: Seq<u8>) -> Seq<u8> {
    if got.len() > 0 {
        partial + got
    } else {
        Seq::empty()
    }
}

/// Whether `partial` is at most one record.
pub open spec fn within_record(partial: Seq<u8>) -> bool {
    partial.len() >= 2 ==> partial.len() <= 2 + bytes::from_be16(partial)
}

/// The record being read.
#[derive(Debug, Clone)]
pub struct RecordReader {
    partial: Vec<u8>,
}

impl View for RecordReader {
    type V = Seq<u8>;

    /// The bytes that have arrived of the record.
    closed spec fn view(&self) -> Seq<u8> {
        self.partial@
    }
}

impl RecordReader {
    /// Whether at most one record has arrived.
    pub open spec fn wf(self) -> bool {
        within_record(self@)
    }

    /// Nothing has arrived.
    pub fn new() -> (r: RecordReader)
        ensures
            r.wf(),
            r@ == Seq::<u8>::empty(),
    {
        RecordReader { partial: Vec::new() }
    }

    /// How many bytes complete the prefix or the record.
    pub fn wanted(&self) -> (n: usize)
        requires
            self.wf(),
        ensures
            n == wanted(self@),
            self@.len() < 2 ==> n == 2 - self@.len(),
            self@.len() >= 2 ==> n == 2 + (self@[0] * 256 + self@[1]) - self@.len(),
    {
        if self.partial.len() < 2 {
            return 2 - self.partial.len();
        }
        let len: usize = read_be16(self.partial.as_slice()) as usize;
        2 + len - self.partial.len()
    }

    /// Takes in what the inner stream had when it was asked for the bytes that
    /// are wanted. No bytes mean that it has ended.
    pub fn feed(&mut self, got: &[u8]) -> (r: Fed)
        requires
            old(self).wf(),
            got@.len() <= wanted(old(self)@),
        ensures
            final(self).wf(),
            r == feed_result(old(self)@, got@),
            final(self)@ == after_feed(old(self)@, got@),
            got@.len() > 0 ==> r is Taken && final(self)@ == old(self)@ + got@,
            got@.len() == 0 ==> final(self)@.len() == 0 && (if old(self)@.len() == 0 {
                r is Eof
            } else {
                r is UnexpectedEof
            }),
    {
        if got.len() == 0 {
            let clean = self.partial.len() == 0;
            self.partial = Vec::new();
            if clean {
                return Fed::Eof;
            }
            return Fed::UnexpectedEof;
        }
        self.partial.extend_from_slice(got);
        assert(self.partial@ =~= old(self)@ + got@);
        Fed::Taken
    }

    /// Hands over the body of the record, which is complete, and begins the next.
    pub fn take(&mut self) -> (body: Vec<u8>)
        requires
            old(self).wf(),
            wanted(old(self)@) == 0,
        ensures
            final(self).wf(),
            body@ == old(self)@.skip(2),
            final(self)@ == Seq::<u8>::empty(),
    {
        let body = slice_to_vec(
            slice_subrange(self.partial.as_slice(), 2, self.partial.len()),
        );
        assert(body@ =~= self.partial@.skip(2));
        self.partial = Vec::new();
        body
    }
}

/// How much of `len` bytes one record carries.
pub fn chunk_len(len: usize) -> (n: usize)
    ensures
        n == vstd::math::min(len as int, MAX_PLAINTEXT as int),
        n == if len < 65519 {
            len
        } else {
            65519
        },
{
    if len < MAX_PLAINTEXT {
        len
    } else {
        MAX_PLAINTEXT
    }
}

// ---------------------------------------------------------------------------
// The encrypted stream
// ---------------------------------------------------------------------------

/// A byte stream encrypted by an established Noise session.
///
/// Records are framed on the wire as a big-endian `u16` length followed by the
/// Noise ciphertext.
pub struct NoiseStream {
    transport: snow::TransportState,
    incoming: RecordReader,
    plaintext: Buffer,
    write_buf: Buffer,
}

/// What a [`NoiseStream`] stands for.
#[verifier::ext_equal]
pub struct StreamView {
    /// The key records are encrypted with.
    pub sealing_key: Seq<u8>,
    /// The counter of the next record out.
    pub sealing_nonce: u64,
    /// The key records are decrypted with.
    pub opening_key: Seq<u8>,
    /// The counter of the next record in.
    pub opening_nonce: u64,
    /// The bytes that have arrived of the record being read.
    pub partial: Seq<u8>,
    /// Decrypted bytes that have not been delivered.
    pub ready: Seq<u8>,
    /// Framed ciphertext that has not been sent.
    pub pending: Seq<u8>,
}

impl View for NoiseStream {
    type V = StreamView;

    closed spec fn view(&self) -> StreamView {
        StreamView {
            sealing_key: noise::sealing_key(self.transport),
            sealing_nonce: noise::sending_nonce(self.transport),
            opening_key: noise::opening_key(self.transport),
            opening_nonce: noise::receiving_nonce(self.transport),
            partial: self.incoming@,
            ready: self.plaintext@,
            pending: self.write_buf@,
        }
    }
}

impl NoiseStream {
    /// Whether the stream is in a state it can get into.
    pub closed spec fn wf(self) -> bool {
        &&& noise::two_way(self.transport)
        &&& self.incoming.wf()
        &&& self.plaintext.wf()
        &&& self.write_buf.wf()
    }

    /// Whether the stream is as the handshake `h` leaves it, at the initiator or
    /// at the responder: one derived key per direction and nothing sent,
    /// received or buffered.
    pub open spec fn established(self, h: snow::HandshakeState, initiator: bool) -> bool {
        &&& self.wf()
        &&& self@.sealing_key == noise::traffic_key(noise::handshake_secret(h), initiator)
        &&& self@.opening_key == noise::traffic_key(noise::handshake_secret(h), !initiator)
        &&& self@.sealing_nonce == 0
        &&& self@.opening_nonce == 0
        &&& self@.partial == Seq::<u8>::empty()
        &&& self@.ready == Seq::<u8>::empty()
        &&& self@.pending == Seq::<u8>::empty()
    }

    fn new(transport: snow::TransportState) -> (stream: Self)
        requires
            noise::two_way(transport),
        ensures
            stream.wf(),
            stream@ == (StreamView {
                sealing_key: noise::sealing_key(transport),
                sealing_nonce: noise::sending_nonce(transport),
                opening_key: noise::opening_key(transport),
                opening_nonce: noise::receiving_nonce(transport),
                partial: Seq::empty(),
                ready: Seq::empty(),
                pending: Seq::empty(),
            }),
    {
        NoiseStream {
            transport,
            incoming: RecordReader::new(),
            plaintext: Buffer::new(),
            write_buf: Buffer::new(),
        }
    }
}

// ---------------------------------------------------------------------------
// Reading
// ---------------------------------------------------------------------------

/// Whether `cipher` is a record that opens under `key` and `nonce`.
pub open spec fn openable(key: Seq<u8>, nonce: u64, cipher: Seq<u8>) -> bool {
    &&& TAG_LEN <= cipher.len() <= MAX_MESSAGE
    &&& nonce != u64::MAX
    &&& noise::opened(key, nonce, cipher) is Some
}

/// What a reader is told, in terms of the values in it.
pub enum ReadView {
    /// These plaintext bytes are handed over.
    Deliver(Seq<u8>),
    /// This many bytes are wanted from the inner stream.
    Want(nat),
    /// A record did not decrypt.
    Corrupt,
}

/// What a reader is told.
pub enum ReadStep {
    /// These plaintext bytes are handed over.
    Deliver(Vec<u8>),
    /// Read up to this many bytes from the inner stream and feed them.
    Want(usize),
    /// A record did not decrypt.
    Corrupt(snow::Error),
}

impl View for ReadStep {
    type V = ReadView;

    open spec fn view(&self) -> ReadView {
        match *self {
            ReadStep::Deliver(data) => ReadView::Deliver(data@),
            ReadStep::Want(n) => ReadView::Want(n as nat),
            ReadStep::Corrupt(_) => ReadView::Corrupt,
        }
    }
}

impl StreamView {
    /// Whether a whole record has arrived and its predecessor is used up.
    pub open spec fn record_complete(self) -> bool {
        self.ready.len() == 0 && wanted(self.partial) == 0
    }

    /// Whether the record that has arrived decrypts.
    pub open spec fn record_opens(self) -> bool {
        openable(self.opening_key, self.opening_nonce, self.partial.skip(2))
    }

    /// The stream with the record that has arrived taken in: decrypted, or
    /// dropped if it does not decrypt.
    pub open spec fn taken_in(self) -> StreamView {
        if !self.record_complete() {
            self
        } else if self.record_opens() {
            StreamView {
                partial: Seq::empty(),
                ready: noise::opened(self.opening_key, self.opening_nonce, self.partial.skip(2))->0,
                opening_nonce: (self.opening_nonce + 1) as u64,
                ..self
            }
        } else {
            StreamView { partial: Seq::empty(), ..self }
        }
    }

    /// What a reader with `room` bytes of space is told.
    pub open spec fn read_result(self, room: nat) -> ReadView {
        let now = self.taken_in();
        if self.record_complete() && !self.record_opens() {
            ReadView::Corrupt
        } else if now.ready.len() > 0 {
            ReadView::Deliver(now.ready.take(vstd::math::min(room as int, now.ready.len() as int)))
        } else {
            ReadView::Want(wanted(now.partial))
        }
    }

    /// The stream after a reader with `room` bytes of space was served.
    pub open spec fn after_read(self, room: nat) -> StreamView {
        let now = self.taken_in();
        if self.record_complete() && !self.record_opens() {
            now
        } else {
            StreamView {
                ready: now.ready.skip(vstd::math::min(room as int, now.ready.len() as int)),
                ..now
            }
        }
    }

    /// The stream after `got` was fed to it; no bytes mean that the inner stream
    /// has ended.
    pub open spec fn after_feed(self, got: Seq<u8>) -> StreamView {
        StreamView { partial: after_feed(self.partial, got), ..self }
    }
}

impl NoiseStream {
    /// Serves a reader with `room` bytes of space.
    ///
    /// Buffered plaintext is delivered first; only when it is used up is the
    /// next record decrypted. A record that does not decrypt is dropped.
    pub fn poll_read(&mut self, room: usize) -> (r: ReadStep)
        requires
            old(self).wf(),
        ensures
            final(self).wf(),
            r@ == old(self)@.read_result(room as nat),
            final(self)@ == old(self)@.after_read(room as nat),
            old(self)@.ready.len() > 0 ==> {
                &&& r matches ReadStep::Deliver(data) && data@ + final(self)@.ready == old(
                    self,
                )@.ready && (data@.len() == room || final(self)@.ready.len() == 0) && data@.len()
                    <= room
                &&& final(self)@.partial == old(self)@.partial
                &&& final(self)@.opening_nonce == old(self)@.opening_nonce
            },
            old(self)@.ready.len() == 0 && (old(self)@.partial.len() < 2 || old(self)@.partial.len()
                < 2 + (old(self)@.partial[0] * 256 + old(self)@.partial[1])) ==> r is Want && final(self)@ == old(self)@,
            old(self)@.ready.len() == 0 && old(self)@.partial.len() >= 2 && old(self)@.partial.len()
                == 2 + (old(self)@.partial[0] * 256 + old(self)@.partial[1]) ==> {
                let cipher = old(self)@.partial.skip(2);
                let opened = noise::opened(
                    old(self)@.opening_key,
                    old(self)@.opening_nonce,
                    cipher,
                );
                let opens = 16 <= cipher.len() <= 65535 && old(self)@.opening_nonce != u64::MAX
                    && opened is Some;
                &&& final(self)@.partial.len() == 0
                &&& r is Corrupt <==> !opens
                &&& r is Corrupt ==> final(self)@.opening_nonce == old(self)@.opening_nonce && final(self)@.ready.len() == 0
                &&& opens ==> final(self)@.opening_nonce == old(self)@.opening_nonce + 1
                &&& opens && opened->0.len() == 0 ==> r is Want && final(self)@.ready.len() == 0
                &&& opens && opened->0.len() > 0 ==> (r matches ReadStep::Deliver(data) && data@
                    + final(self)@.ready == opened->0 && (data@.len() == room || final(self)@.ready.len() == 0) && data@.len() <= room)
            },
            final(self)@.pending == old(self)@.pending,
            final(self)@.sealing_key == old(self)@.sealing_key,
            final(self)@.sealing_nonce == old(self)@.sealing_nonce,
            final(self)@.opening_key == old(self)@.opening_key,
            r matches ReadStep::Want(n) ==> n == if final(self)@.partial.len() < 2 {
                2 - final(self)@.partial.len()
            } else {
                2 + (final(self)@.partial[0] * 256 + final(self)@.partial[1]) - final(self)@.partial.len()
            },
    {
        if self.plaintext.is_empty() {
            let wanted: usize = self.incoming.wanted();
            if wanted > 0 {
                assert(self@.ready.skip(0) =~= self@.ready);
                return ReadStep::Want(wanted);
            }
            let cipher = self.incoming.take();
            let size: usize = if cipher.len() > 1 {
                cipher.len()
            } else {
                1
            };
            let mut out: Vec<u8> = vec![0u8; size];
            match self.transport.read_message(cipher.as_slice(), out.as_mut_slice()) {
                Ok(n) => {
                    out.truncate(n);
                    assert(out@ =~= old(self)@.taken_in().ready);
                    self.plaintext.load(out);
                },
                Err(e) => {
                    return ReadStep::Corrupt(e);
                },
            }
            assert(self@ =~= old(self)@.taken_in());
            if self.plaintext.is_empty() {
                assert(self@.ready.skip(0) =~= self@.ready);
                return ReadStep::Want(2);
            }
        }
        ReadStep::Deliver(self.plaintext.take(room))
    }

    /// How many bytes complete the record being read.
    pub fn wanted(&self) -> (n: usize)
        requires
            self.wf(),
        ensures
            n == wanted(self@.partial),
            self@.partial.len() < 2 ==> n == 2 - self@.partial.len(),
            self@.partial.len() >= 2 ==> n == 2 + (self@.partial[0] * 256 + self@.partial[1])
                - self@.partial.len(),
    {
        self.incoming.wanted()
    }

    /// Takes in what the inner stream had when it was asked for the bytes that
    /// are wanted. No bytes mean that it has ended.
    pub fn feed(&mut self, got: &[u8]) -> (r: Fed)
        requires
            old(self).wf(),
            got@.len() <= wanted(old(self)@.partial),
        ensures
            final(self).wf(),
            r == feed_result(old(self)@.partial, got@),
            final(self)@ == old(self)@.after_feed(got@),
            got@.len() > 0 ==> r is Taken && final(self)@.partial == old(self)@.partial + got@,
            got@.len() == 0 ==> final(self)@.partial.len() == 0 && (if old(self)@.partial.len()
                == 0 {
                r is Eof
            } else {
                r is UnexpectedEof
            }),
            final(self)@.ready == old(self)@.ready,
            final(self)@.pending == old(self)@.pending,
            final(self)@.sealing_key == old(self)@.sealing_key,
            final(self)@.sealing_nonce == old(self)@.sealing_nonce,
            final(self)@.opening_key == old(self)@.opening_key,
            final(self)@.opening_nonce == old(self)@.opening_nonce,
    {
        self.incoming.feed(got)
    }
}

// ---------------------------------------------------------------------------
// Writing
// ---------------------------------------------------------------------------

/// The part of `src` that one record carries.
pub open spec fn first_chunk(src: Seq<u8>) -> Seq<u8> {
    src.take(vstd::math::min(src.len() as int, MAX_PLAINTEXT as int))
}

/// The record that carries `chunk`, as it travels.
pub open spec fn record(key: Seq<u8>, nonce: u64, chunk: Seq<u8>) -> Seq<u8> {
    framed(noise::sealed(key, nonce, chunk))
}

/// Whether the record that carries `chunk` has the length of the chunk and a
/// tag, and opens to the chunk.
pub open spec fn record_reads_back(key: Seq<u8>, nonce: u64, chunk: Seq<u8>) -> bool {
    &&& noise::sealed(key, nonce, chunk).len() == chunk.len() + TAG_LEN
    &&& openable(key, nonce, noise::sealed(key, nonce, chunk))
    &&& noise::opened(key, nonce, noise::sealed(key, nonce, chunk)) == Some(chunk)
}

/// The inner stream accepted none of the bytes it was offered.
#[derive(Clone, Copy, Debug, PartialEq, Eq, Structural)]
pub struct WriteZero;

impl NoiseStream {
    /// The framed ciphertext that is still to be sent.
    pub fn pending(&self) -> (out: &[u8])
        requires
            self.wf(),
        ensures
            out@ == self@.pending,
    {
        self.write_buf.left()
    }

    /// Notes that the inner stream accepted the first `n` pending bytes.
    /// That it accepts none of them is an error.
    pub fn poll_drain(&mut self, n: usize) -> (r: Result<(), WriteZero>)
        requires
            old(self).wf(),
            old(self)@.pending.len() > 0,
            n <= old(self)@.pending.len(),
        ensures
            final(self).wf(),
            r is Err <==> n == 0,
            final(self)@ == (StreamView {
                pending: old(self)@.pending.skip(n as int),
                ..old(self)@
            }),
    {
        if n == 0 {
            assert(self@.pending.skip(0) =~= self@.pending);
            return Err(WriteZero);
        }
        self.write_buf.skip(n);
        Ok(())
    }

    /// Encrypts the front of `src` into one record and gives the number of bytes
    /// taken. One record is in flight at a time, so nothing may be pending.
    ///
    /// Fails only when the counter of the session is used up.
    pub fn poll_write(&mut self, src: &[u8]) -> (r: Result<usize, snow::Error>)
        requires
            old(self).wf(),
            old(self)@.pending.len() == 0,
        ensures
            final(self).wf(),
            r is Err <==> src@.len() > 0 && old(self)@.sealing_nonce == u64::MAX,
            r is Err ==> final(self)@ == old(self)@,
            r matches Ok(n) ==> n == first_chunk(src@).len(),
            r is Ok && src@.len() == 0 ==> final(self)@ == old(self)@,
            r is Ok && src@.len() > 0 ==> {
                &&& final(self)@ == (StreamView {
                    pending: record(
                        old(self)@.sealing_key,
                        old(self)@.sealing_nonce,
                        first_chunk(src@),
                    ),
                    sealing_nonce: (old(self)@.sealing_nonce + 1) as u64,
                    ..old(self)@
                })
                &&& record_reads_back(
                    old(self)@.sealing_key,
                    old(self)@.sealing_nonce,
                    first_chunk(src@),
                )
            },
            r matches Ok(n) ==> n == if src@.len() < 65519 {
                src@.len() as int
            } else {
                65519
            },
            r is Ok && src@.len() > 0 ==> {
                let n = r->Ok_0 as int;
                let out = final(self)@.pending;
                &&& out.len() == 2 + n + 16
                &&& out[0] * 256 + out[1] == n + 16
                &&& out.skip(2) == noise::sealed(
                    old(self)@.sealing_key,
                    old(self)@.sealing_nonce,
                    src@.take(n),
                )
                &&& final(self)@.sealing_nonce == old(self)@.sealing_nonce + 1
            },
            final(self)@.sealing_key == old(self)@.sealing_key,
            final(self)@.opening_key == old(self)@.opening_key,
            final(self)@.opening_nonce == old(self)@.opening_nonce,
            final(self)@.partial == old(self)@.partial,
            final(self)@.ready == old(self)@.ready,
    {
        if src.len() == 0 {
            return Ok(0);
        }
        let size: usize = chunk_len(src.len());
        let chunk = slice_subrange(src, 0, size);
        assert(chunk@ =~= first_chunk(src@));
        let mut cipher: Vec<u8> = vec![0u8; size + TAG_LEN];
        let n: usize = match self.transport.write_message(chunk, cipher.as_mut_slice()) {
            Ok(n) => n,
            Err(e) => return Err(e),
        };
        assert(cipher@ =~= noise::sealed(
            old(self)@.sealing_key,
            old(self)@.sealing_nonce,
            chunk@,
        ));
        assert(cipher@.subrange(0, n as int) =~= cipher@);
        self.write_buf.load(write_hs(slice_subrange(cipher.as_slice(), 0, n)));
        Ok(size)
    }
}

// ---------------------------------------------------------------------------
// What is read is what was written
// ---------------------------------------------------------------------------

/// The plaintext of the records at the front of `wire`, up to the first one that
/// is incomplete or does not open.
pub open spec fn decoded(key: Seq<u8>, nonce: u64, wire: Seq<u8>) -> Seq<u8>
    decreases wire.len(),
{
    if wanted(wire) > 0 {
        Seq::empty()
    } else {
        let end = 2 + bytes::from_be16(wire) as int;
        let cipher = wire.subrange(2, end);
        if !openable(key, nonce, cipher) {
            Seq::empty()
        } else {
            noise::opened(key, nonce, cipher)->0 + decoded(
                key,
                (nonce + 1) as u64,
                wire.skip(end),
            )
        }
    }
}

impl StreamView {
    /// Everything that a reader is still going to get if `rest` arrives.
    pub open spec fn to_come(self, rest: Seq<u8>) -> Seq<u8> {
        self.ready + decoded(self.opening_key, self.opening_nonce, self.partial + rest)
    }

    /// Whether the bytes of the record being read are at most that record.
    pub open spec fn within_record(self) -> bool {
        within_record(self.partial)
    }
}

/// Feeding bytes loses none and reorders none: what is to come stays the same
/// when bytes move from the inner stream into the session.
pub proof fn feeding_keeps_the_stream(v: StreamView, got: Seq<u8>, rest: Seq<u8>)
    requires
        got.len() > 0,
    ensures
        v.after_feed(got).to_come(rest) == v.to_come(got + rest),
{
    assert(v.partial + got + rest =~= v.partial + (got + rest));
}

/// Serving a reader loses nothing and invents nothing: what was to come is what
/// was delivered followed by what is still to come, and a record is only refused
/// where nothing was to come any more.
pub proof fn reading_keeps_the_stream(v: StreamView, room: nat, rest: Seq<u8>)
    requires
        v.within_record(),
    ensures
        v.read_result(room) matches ReadView::Deliver(data) ==> v.to_come(rest) == data
            + v.after_read(room).to_come(rest),
        v.read_result(room) is Want ==> v.to_come(rest) == v.after_read(room).to_come(rest),
        v.read_result(room) is Corrupt ==> v.to_come(rest) == Seq::<u8>::empty(),
        v.after_read(room).within_record(),
{
    let now = v.taken_in();
    let wire = v.partial + rest;
    if v.record_complete() {
        let end = 2 + bytes::from_be16(v.partial) as int;
        assert(wire[0] == v.partial[0] && wire[1] == v.partial[1]);
        assert(wire.subrange(2, end) =~= v.partial.skip(2));
        assert(wire.skip(end) =~= Seq::<u8>::empty() + rest);
        assert(v.ready =~= Seq::<u8>::empty());
        if v.record_opens() {
            assert(v.to_come(rest) =~= now.to_come(rest));
        } else {
            assert(v.to_come(rest) =~= Seq::<u8>::empty());
        }
    }
    let n = vstd::math::min(room as int, now.ready.len() as int);
    assert(now.ready =~= now.ready.take(n) + now.ready.skip(n));
    assert(now.to_come(rest) =~= now.ready.take(n) + (StreamView {
        ready: now.ready.skip(n),
        ..now
    }).to_come(rest));
    if now.ready.len() == 0 {
        assert(now.ready.skip(n) =~= now.ready);
    }
}

/// One thing that happens to the reading side of a stream.
pub enum ReadEvent {
    /// These bytes come from the inner stream.
    Feed(Seq<u8>),
    /// A reader with this much space is served.
    Read(nat),
}

/// What a reading side has come to.
pub struct ReadRun {
    /// The stream.
    pub stream: StreamView,
    /// The bytes fed, in order.
    pub fed: Seq<u8>,
    /// The bytes delivered, in order.
    pub delivered: Seq<u8>,
    /// Whether every feed was one the stream had asked for.
    pub asked: bool,
    /// Whether every record decrypted.
    pub intact: bool,
}

/// The run that `events` make of a stream.
pub open spec fn read_run(v: StreamView, events: Seq<ReadEvent>) -> ReadRun
    decreases events.len(),
{
    if events.len() == 0 {
        ReadRun { stream: v, fed: Seq::empty(), delivered: Seq::empty(), asked: true, intact: true }
    } else {
        let before = read_run(v, events.drop_last());
        match events.last() {
            ReadEvent::Feed(got) => ReadRun {
                stream: before.stream.after_feed(got),
                fed: before.fed + got,
                delivered: before.delivered,
                asked: before.asked && 0 < got.len() <= wanted(before.stream.partial),
                intact: before.intact,
            },
            ReadEvent::Read(room) => ReadRun {
                stream: before.stream.after_read(room),
                fed: before.fed,
                delivered: match before.stream.read_result(room) {
                    ReadView::Deliver(data) => before.delivered + data,
                    _ => before.delivered,
                },
                asked: before.asked,
                intact: before.intact && !(before.stream.read_result(room) is Corrupt),
            },
        }
    }
}

/// However the bytes of the inner stream are cut up and however little space the
/// readers have, a run delivers a prefix of the plaintext that the bytes stand
/// for, and what is missing from it is still to come.
pub proof fn runs_deliver_the_plaintext(v: StreamView, events: Seq<ReadEvent>, rest: Seq<u8>)
    requires
        v.within_record(),
        read_run(v, events).asked,
        read_run(v, events).intact,
    ensures
        read_run(v, events).stream.within_record(),
        read_run(v, events).delivered + read_run(v, events).stream.to_come(rest) == v.to_come(
            read_run(v, events).fed + rest,
        ),
    decreases events.len(),
{
    if events.len() == 0 {
        assert(Seq::<u8>::empty() + rest =~= rest);
        assert(Seq::<u8>::empty() + v.to_come(rest) =~= v.to_come(rest));
    } else {
        let before = read_run(v, events.drop_last());
        let after = read_run(v, events);
        match events.last() {
            ReadEvent::Feed(got) => {
                runs_deliver_the_plaintext(v, events.drop_last(), got + rest);
                feeding_keeps_the_stream(before.stream, got, rest);
                assert(before.fed + (got + rest) =~= before.fed + got + rest);
                let partial = before.stream.partial;
                if partial.len() >= 2 {
                    assert((partial + got)[0] == partial[0] && (partial + got)[1] == partial[1]);
                }
            },
            ReadEvent::Read(room) => {
                runs_deliver_the_plaintext(v, events.drop_last(), rest);
                reading_keeps_the_stream(before.stream, room, rest);
                if let ReadView::Deliver(data) = before.stream.read_result(room) {
                    assert(before.delivered + (data + after.stream.to_come(rest))
                        =~= before.delivered + data + after.stream.to_come(rest));
                }
            },
        }
    }
}

/// What writing all of `payload` puts on the wire, one record per chunk.
pub open spec fn sent(key: Seq<u8>, nonce: u64, payload: Seq<u8>) -> Seq<u8>
    decreases payload.len(),
{
    if payload.len() == 0 {
        Seq::empty()
    } else {
        let chunk = first_chunk(payload);
        record(key, nonce, chunk) + sent(
            key,
            (nonce + 1) as u64,
            payload.skip(chunk.len() as int),
        )
    }
}

/// The counter after all of `payload` is written.
pub open spec fn nonce_after(nonce: u64, payload: Seq<u8>) -> u64
    decreases payload.len(),
{
    if payload.len() == 0 {
        nonce
    } else {
        nonce_after((nonce + 1) as u64, payload.skip(first_chunk(payload).len() as int))
    }
}

/// Whether every record that `payload` is written in reads back.
pub open spec fn all_read_back(key: Seq<u8>, nonce: u64, payload: Seq<u8>) -> bool
    decreases payload.len(),
{
    payload.len() == 0 || {
        let chunk = first_chunk(payload);
        &&& record_reads_back(key, nonce, chunk)
        &&& all_read_back(key, (nonce + 1) as u64, payload.skip(chunk.len() as int))
    }
}

/// The records of a payload of any length decode to that payload, and what
/// follows them on the wire decodes as it would on its own.
pub proof fn records_decode_to_the_payload(
    key: Seq<u8>,
    nonce: u64,
    payload: Seq<u8>,
    tail: Seq<u8>,
)
    requires
        all_read_back(key, nonce, payload),
    ensures
        decoded(key, nonce, sent(key, nonce, payload) + tail) == payload + decoded(
            key,
            nonce_after(nonce, payload),
            tail,
        ),
    decreases payload.len(),
{
    if payload.len() == 0 {
        assert(sent(key, nonce, payload) + tail =~= tail);
        assert(payload + decoded(key, nonce, tail) =~= decoded(key, nonce, tail));
    } else {
        let chunk = first_chunk(payload);
        let cipher = noise::sealed(key, nonce, chunk);
        let next = (nonce + 1) as u64;
        let left = payload.skip(chunk.len() as int);
        let after = sent(key, next, left) + tail;
        let wire = sent(key, nonce, payload) + tail;
        assert(wire =~= framed(cipher) + after);
        handshake_frame_roundtrip(cipher, after);
        assert(framed(cipher) + after =~= bytes::be16(cipher.len()) + (cipher + after));
        bytes::be16_roundtrip(cipher.len(), cipher + after);
        let end = 2 + cipher.len() as int;
        assert(wire.skip(end) =~= after);
        records_decode_to_the_payload(key, next, left, tail);
        assert(payload =~= chunk + left);
        let remainder = decoded(key, nonce_after(nonce, payload), tail);
        assert(chunk + (left + remainder) =~= payload + remainder);
    }
}

/// While only the records of `payload` arrive, the record being read and what is
/// still on the way are always the records of some `left` of it.
proof fn lemma_run_stays_on_records(
    v: StreamView,
    payload: Seq<u8>,
    events: Seq<ReadEvent>,
    rest: Seq<u8>,
) -> (left: Seq<u8>)
    requires
        v.partial.len() == 0,
        all_read_back(v.opening_key, v.opening_nonce, payload),
        read_run(v, events).asked,
        read_run(v, events).fed + rest == sent(v.opening_key, v.opening_nonce, payload),
    ensures
        read_run(v, events).intact,
        ({
            let w = read_run(v, events).stream;
            &&& w.within_record()
            &&& w.opening_key == v.opening_key
            &&& w.partial + rest == sent(w.opening_key, w.opening_nonce, left)
            &&& all_read_back(w.opening_key, w.opening_nonce, left)
        }),
    decreases events.len(),
{
    if events.len() == 0 {
        assert(v.partial + rest =~= read_run(v, events).fed + rest);
        payload
    } else {
        let before = read_run(v, events.drop_last());
        let w = before.stream;
        match events.last() {
            ReadEvent::Feed(got) => {
                assert(before.fed + (got + rest) =~= before.fed + got + rest);
                let left = lemma_run_stays_on_records(v, payload, events.drop_last(), got + rest);
                assert(w.partial + got + rest =~= w.partial + (got + rest));
                if w.partial.len() >= 2 {
                    assert((w.partial + got)[0] == w.partial[0]);
                    assert((w.partial + got)[1] == w.partial[1]);
                }
                left
            },
            ReadEvent::Read(room) => {
                let left = lemma_run_stays_on_records(v, payload, events.drop_last(), rest);
                if w.record_complete() {
                    let wire = sent(w.opening_key, w.opening_nonce, left);
                    assert(wire.len() == w.partial.len() + rest.len());
                    let chunk = first_chunk(left);
                    let cipher = noise::sealed(w.opening_key, w.opening_nonce, chunk);
                    let less = left.skip(chunk.len() as int);
                    let after = sent(w.opening_key, (w.opening_nonce + 1) as u64, less);
                    assert(wire =~= bytes::be16(cipher.len()) + (cipher + after));
                    bytes::be16_roundtrip(cipher.len(), cipher + after);
                    assert(wire[0] == w.partial[0] && wire[1] == w.partial[1]);
                    assert(w.partial =~= wire.take(w.partial.len() as int));
                    assert(w.partial.skip(2) =~= cipher);
                    assert(rest =~= wire.skip(w.partial.len() as int));
                    assert(rest =~= after);
                    assert(Seq::<u8>::empty() + rest =~= rest);
                    less
                } else {
                    left
                }
            },
        }
    }
}

/// Intact traffic is never refused: as long as a stream is fed the records that
/// its peer has sent, in order and cut up in any way, every record decrypts.
pub proof fn intact_traffic_is_never_refused(
    v: StreamView,
    payload: Seq<u8>,
    events: Seq<ReadEvent>,
    rest: Seq<u8>,
)
    requires
        v.partial.len() == 0,
        all_read_back(v.opening_key, v.opening_nonce, payload),
        read_run(v, events).asked,
        read_run(v, events).fed + rest == sent(v.opening_key, v.opening_nonce, payload),
    ensures
        read_run(v, events).intact,
{
    let _ = lemma_run_stays_on_records(v, payload, events, rest);
}

/// A stream whose peer has sent `payload` over a session that shares its key and
/// counter delivers a prefix of `payload` at every moment, and all of it once
/// everything that was sent has arrived and been read.
pub proof fn reads_give_back_writes(
    v: StreamView,
    payload: Seq<u8>,
    events: Seq<ReadEvent>,
    rest: Seq<u8>,
)
    requires
        v.partial.len() == 0,
        v.ready.len() == 0,
        all_read_back(v.opening_key, v.opening_nonce, payload),
        read_run(v, events).asked,
        read_run(v, events).fed + rest == sent(v.opening_key, v.opening_nonce, payload),
    ensures
        read_run(v, events).delivered + read_run(v, events).stream.to_come(rest) == payload,
        rest.len() == 0 && read_run(v, events).stream.partial.len() == 0 && read_run(
            v,
            events,
        ).stream.ready.len() == 0 ==> read_run(v, events).delivered == payload,
{
    let run = read_run(v, events);
    let wire = sent(v.opening_key, v.opening_nonce, payload);
    let nothing = Seq::<u8>::empty();
    intact_traffic_is_never_refused(v, payload, events, rest);
    runs_deliver_the_plaintext(v, events, rest);
    records_decode_to_the_payload(v.opening_key, v.opening_nonce, payload, nothing);
    assert(wire + nothing =~= wire);
    assert(v.partial + wire =~= wire);
    let end = decoded(v.opening_key, nonce_after(v.opening_nonce, payload), nothing);
    assert(end =~= nothing);
    assert(payload + end =~= payload);
    assert(v.to_come(wire) =~= payload);
    if rest.len() == 0 && run.stream.partial.len() == 0 && run.stream.ready.len() == 0 {
        assert(run.stream.to_come(rest) =~= nothing);
        assert(run.delivered + nothing =~= run.delivered);
    }
}

/// A client and a server that match get a session. The client pins the static key
/// that the server has, and both share a PSK. Then the server accepts the
/// client's message, the client accepts the reply, and what either end encrypts
/// with is what the other decrypts with, from the same counter on.
pub proof fn matching_ends_get_a_session(
    client: Initiator,
    server: Responder,
    server_pub: Seq<u8>,
    psk: Seq<u8>,
    replied: snow::HandshakeState,
    client_stream: NoiseStream,
    server_stream: NoiseStream,
)
    requires
        client.expects(server_pub, psk),
        server.wf(),
        server.serves(server_pub, psk),
        replies(
            noise::after_reading(server@, noise::handshake_written(client@)),
            replied,
        ),
        server_stream.established(replied, false),
        client_stream.established(
            noise::after_reading(client@, noise::handshake_written(replied)),
            true,
        ),
    ensures
        noise::readable(server@, noise::handshake_written(client@)),
        noise::readable(client@, noise::handshake_written(replied)),
        client_stream@.sealing_key == server_stream@.opening_key,
        client_stream@.sealing_nonce == server_stream@.opening_nonce,
        server_stream@.sealing_key == client_stream@.opening_key,
        server_stream@.sealing_nonce == client_stream@.opening_nonce,
{
    assert(noise::reaches(client@, server@));
    assert(noise::reaches(replied, client@));
}

} // verus!
