//! The Noise protocol, as the `snow` crate implements it.
//!
//! Apart from the constants, everything in this module is a statement about
//! `snow` that the session layer builds on; none of it is proved here. `snow`'s
//! objects are opaque, so what the session layer has to know of them is given
//! names: the settings and the progress of a handshake, and the keys and the
//! counters of an established session.

use vstd::prelude::*;

verus! {

/// The protocol the tunnel runs: NK (the client pins the server's static key),
/// with a pre-shared key mixed in before anything else.
pub const NOISE_PARAMS: &'static str = "Noise_NKpsk0_25519_ChaChaPoly_BLAKE2s";

/// A Noise message is at most this long.
pub const MAX_MESSAGE: usize = 65535;

/// Bytes of authentication tag on every encrypted message.
pub const TAG_LEN: usize = 16;

/// Bytes a handshake message adds to its payload: a public key and a tag.
pub const HANDSHAKE_OVERHEAD: usize = 48;

/// Messages in the handshake.
pub const HANDSHAKE_MESSAGES: usize = 2;

/// `snow` copies a remote public key into a buffer of this size.
pub const MAX_PUBLIC_KEY: usize = 56;

/// `snow` copies a local private key into a buffer of this size.
pub const MAX_PRIVATE_KEY: usize = 32;

/// Parsed protocol parameters.
#[verifier::external_type_specification]
#[verifier::external_body]
pub struct ExNoiseParams(snow::params::NoiseParams);

/// A handshake under construction.
#[verifier::external_type_specification]
#[verifier::external_body]
pub struct ExBuilder<'builder>(snow::Builder<'builder>);

/// A handshake in progress.
#[verifier::external_type_specification]
#[verifier::external_body]
pub struct ExHandshakeState(snow::HandshakeState);

/// An established session.
#[verifier::external_type_specification]
#[verifier::external_body]
pub struct ExTransportState(snow::TransportState);

/// What went wrong inside `snow`.
#[verifier::external_type_specification]
#[verifier::external_body]
pub struct ExSnowError(snow::Error);

// ---------------------------------------------------------------------------
// Building a handshake
// ---------------------------------------------------------------------------

/// The protocol name that parameters were parsed from.
pub uninterp spec fn params_name(p: snow::params::NoiseParams) -> Seq<char>;

/// The protocol name a builder was made for.
pub uninterp spec fn builder_name(b: snow::Builder<'_>) -> Seq<char>;

/// The local static private key set on a builder.
pub uninterp spec fn builder_local(b: snow::Builder<'_>) -> Option<Seq<u8>>;

/// The remote static public key set on a builder.
pub uninterp spec fn builder_remote(b: snow::Builder<'_>) -> Option<Seq<u8>>;

/// The pre-shared key set on a builder for `slot`.
pub uninterp spec fn builder_psk(b: snow::Builder<'_>, slot: u8) -> Option<Seq<u8>>;

/// The data set on a builder to be hashed into the handshake.
pub uninterp spec fn builder_prologue(b: snow::Builder<'_>) -> Seq<u8>;

/// The public key that belongs to a static private key.
pub uninterp spec fn public_half(private: Seq<u8>) -> Seq<u8>;

/// Parses a protocol name: `NoiseParams::from_str`, by way of `str::parse`.
///
/// Claims that [`NOISE_PARAMS`] parses, and that the parameters remember the
/// name. Which other names parse is left unsaid.
#[verifier::external_body]
pub(crate) fn parse_params(name: &str) -> (r: Result<snow::params::NoiseParams, snow::Error>)
    ensures
        name@ == NOISE_PARAMS@ ==> r is Ok,
        r matches Ok(p) ==> params_name(p) == name@,
{
    name.parse()
}

/// Starts a handshake: `snow::Builder::new`.
///
/// Claims that the builder is for `params` and that no key and no prologue is set
/// on it.
pub assume_specification<'builder>[ snow::Builder::<'builder>::new ](
    params: snow::params::NoiseParams,
) -> (b: snow::Builder<'builder>)
    ensures
        builder_name(b) == params_name(params),
        builder_local(b) is None,
        builder_remote(b) is None,
        forall|slot: u8| builder_psk(b, slot) is None,
        builder_prologue(b) == Seq::<u8>::empty(),
;

/// Sets the remote static public key: `snow::Builder::remote_public_key`.
///
/// Claims that it fails exactly when the key was set before, and that it sets
/// that key and leaves the rest as it was.
pub assume_specification<'builder>[ snow::Builder::<'builder>::remote_public_key ](
    b: snow::Builder<'builder>,
    pub_key: &'builder [u8],
) -> (r: Result<snow::Builder<'builder>, snow::Error>)
    ensures
        r is Ok <==> builder_remote(b) is None,
        r matches Ok(n) ==> {
            &&& builder_name(n) == builder_name(b)
            &&& builder_local(n) == builder_local(b)
            &&& builder_remote(n) == Some(pub_key@)
            &&& builder_prologue(n) == builder_prologue(b)
            &&& forall|slot: u8| builder_psk(n, slot) == builder_psk(b, slot)
        },
;

/// Sets the local static private key: `snow::Builder::local_private_key`.
///
/// Claims that it fails exactly when the key was set before, and that it sets
/// that key and leaves the rest as it was.
pub assume_specification<'builder>[ snow::Builder::<'builder>::local_private_key ](
    b: snow::Builder<'builder>,
    key: &'builder [u8],
) -> (r: Result<snow::Builder<'builder>, snow::Error>)
    ensures
        r is Ok <==> builder_local(b) is None,
        r matches Ok(n) ==> {
            &&& builder_name(n) == builder_name(b)
            &&& builder_local(n) == Some(key@)
            &&& builder_remote(n) == builder_remote(b)
            &&& builder_prologue(n) == builder_prologue(b)
            &&& forall|slot: u8| builder_psk(n, slot) == builder_psk(b, slot)
        },
;

/// Sets a pre-shared key: `snow::Builder::psk`.
///
/// Claims that it fails exactly when there is no such slot or the slot was set
/// before, and that it sets that slot and leaves the rest as it was.
#[verifier::external_body]
pub(crate) fn set_psk<'a>(
    b: snow::Builder<'a>,
    location: u8,
    key: &'a [u8; 32],
) -> (r: Result<snow::Builder<'a>, snow::Error>)
    ensures
        r is Ok <==> (location <= 9 && builder_psk(b, location) is None),
        r matches Ok(n) ==> {
            &&& builder_name(n) == builder_name(b)
            &&& builder_local(n) == builder_local(b)
            &&& builder_remote(n) == builder_remote(b)
            &&& builder_prologue(n) == builder_prologue(b)
            &&& builder_psk(n, location) == Some(key@)
            &&& forall|slot: u8|
                slot != location ==> builder_psk(n, slot) == builder_psk(b, slot)
        },
{
    b.psk(location, key)
}

/// Generates a static keypair: `snow::Builder::generate_keypair`, giving the
/// private and the public half.
///
/// Asked for [`NOISE_PARAMS`] only, and claims that both halves are 32 bytes and
/// belong together. The keys are random, and drawing them can fail; nothing else
/// is claimed.
#[verifier::external_body]
pub(crate) fn generate_keypair(b: &snow::Builder<'_>) -> (r: Result<
    (Vec<u8>, Vec<u8>),
    snow::Error,
>)
    requires
        builder_name(*b) == NOISE_PARAMS@,
    ensures
        r matches Ok(k) ==> k.0@.len() == 32 && k.1@.len() == 32 && k.1@ == public_half(k.0@),
{
    let keypair = b.generate_keypair()?;
    Ok((keypair.private, keypair.public))
}

// ---------------------------------------------------------------------------
// A handshake in progress
// ---------------------------------------------------------------------------

/// The protocol name a handshake runs.
pub uninterp spec fn handshake_name(h: snow::HandshakeState) -> Seq<char>;

/// Whether this side starts the handshake: `HandshakeState::is_initiator`.
pub uninterp spec fn handshake_initiator(h: snow::HandshakeState) -> bool;

/// The local static private key a handshake was built with.
pub uninterp spec fn handshake_local(h: snow::HandshakeState) -> Option<Seq<u8>>;

/// The remote static public key a handshake was built with.
pub uninterp spec fn handshake_remote(h: snow::HandshakeState) -> Option<Seq<u8>>;

/// The pre-shared key a handshake was built with for `slot`.
pub uninterp spec fn handshake_psk(h: snow::HandshakeState, slot: u8) -> Option<Seq<u8>>;

/// The data a handshake was built to hash in.
pub uninterp spec fn handshake_prologue(h: snow::HandshakeState) -> Seq<u8>;

/// How many messages a handshake has processed.
pub uninterp spec fn handshake_step(h: snow::HandshakeState) -> nat;

/// Whether this side writes the next message: `HandshakeState::is_my_turn`.
pub uninterp spec fn handshake_writes(h: snow::HandshakeState) -> bool;

/// The message a handshake wrote last.
pub uninterp spec fn handshake_written(h: snow::HandshakeState) -> Seq<u8>;

/// The secret that a handshake has come to so far.
pub uninterp spec fn handshake_secret(h: snow::HandshakeState) -> Seq<u8>;

/// Whether a handshake accepts `message` as the peer's next one.
pub uninterp spec fn readable(h: snow::HandshakeState, message: Seq<u8>) -> bool;

/// What a handshake becomes when it has read `message`.
pub uninterp spec fn after_reading(
    h: snow::HandshakeState,
    message: Seq<u8>,
) -> snow::HandshakeState;

/// Whether two handshakes are opposite sides of one, set up to match, and have
/// exchanged the same messages.
pub uninterp spec fn in_step(a: snow::HandshakeState, b: snow::HandshakeState) -> bool;

/// Whether two handshakes that have not begun are set up to match: the same
/// protocol, prologue and pre-shared key, and the responder has the static key
/// that the initiator expects.
pub open spec fn match_up(initiator: snow::HandshakeState, responder: snow::HandshakeState) -> bool {
    &&& handshake_name(initiator) == NOISE_PARAMS@
    &&& handshake_name(responder) == NOISE_PARAMS@
    &&& handshake_initiator(initiator)
    &&& !handshake_initiator(responder)
    &&& handshake_step(initiator) == 0
    &&& handshake_step(responder) == 0
    &&& handshake_prologue(initiator) == handshake_prologue(responder)
    &&& handshake_psk(initiator, 0) is Some
    &&& handshake_psk(initiator, 0) == handshake_psk(responder, 0)
    &&& handshake_local(responder) is Some
    &&& handshake_remote(initiator) == Some(public_half(handshake_local(responder)->0))
}

/// Whether the message that `sender` wrote last reaches `peer`: the peer accepts
/// it, and the two are then in step and agree on the secret.
pub open spec fn reaches(sender: snow::HandshakeState, peer: snow::HandshakeState) -> bool {
    let after = after_reading(peer, handshake_written(sender));
    &&& readable(peer, handshake_written(sender))
    &&& in_step(after, sender)
    &&& handshake_secret(after) == handshake_secret(sender)
}

/// Whether two handshakes are set up alike: protocol, role, keys and prologue.
pub open spec fn same_settings(a: snow::HandshakeState, b: snow::HandshakeState) -> bool {
    &&& handshake_name(a) == handshake_name(b)
    &&& handshake_initiator(a) == handshake_initiator(b)
    &&& handshake_local(a) == handshake_local(b)
    &&& handshake_remote(a) == handshake_remote(b)
    &&& handshake_prologue(a) == handshake_prologue(b)
    &&& forall|slot: u8| handshake_psk(a, slot) == handshake_psk(b, slot)
}

/// Whether the keys on a builder fit the buffers `snow` copies them into.
pub open spec fn keys_fit(b: snow::Builder<'_>) -> bool {
    &&& builder_local(b) matches Some(k) ==> k.len() <= MAX_PRIVATE_KEY
    &&& builder_remote(b) matches Some(k) ==> k.len() <= MAX_PUBLIC_KEY
}

/// Builds the side that writes first: `snow::Builder::build_initiator`.
///
/// Asked for [`NOISE_PARAMS`] only; longer keys than [`keys_fit`] admits make
/// `snow` panic. Claims that building succeeds exactly when the remote key is set,
/// that the handshake then has the builder's settings, and that it is in step
/// with every responder that matches it.
pub assume_specification<'builder>[ snow::Builder::<'builder>::build_initiator ](
    b: snow::Builder<'builder>,
) -> (r: Result<snow::HandshakeState, snow::Error>)
    requires
        builder_name(b) == NOISE_PARAMS@,
        keys_fit(b),
    ensures
        r is Ok <==> builder_remote(b) is Some,
        r matches Ok(h) ==> {
            &&& handshake_name(h) == builder_name(b)
            &&& handshake_local(h) == builder_local(b)
            &&& handshake_remote(h) == builder_remote(b)
            &&& handshake_prologue(h) == builder_prologue(b)
            &&& forall|slot: u8| handshake_psk(h, slot) == builder_psk(b, slot)
            &&& handshake_step(h) == 0
            &&& handshake_initiator(h)
            &&& handshake_writes(h)
            &&& forall|peer: snow::HandshakeState|
                match_up(h, peer) ==> #[trigger] in_step(h, peer)
        },
;

/// Builds the side that reads first: `snow::Builder::build_responder`.
///
/// Asked for [`NOISE_PARAMS`] only; longer keys than [`keys_fit`] admits make
/// `snow` panic. Claims that building succeeds exactly when the local key is set,
/// and that the handshake then has the builder's settings.
pub assume_specification<'builder>[ snow::Builder::<'builder>::build_responder ](
    b: snow::Builder<'builder>,
) -> (r: Result<snow::HandshakeState, snow::Error>)
    requires
        builder_name(b) == NOISE_PARAMS@,
        keys_fit(b),
    ensures
        r is Ok <==> builder_local(b) is Some,
        r matches Ok(h) ==> {
            &&& handshake_name(h) == builder_name(b)
            &&& handshake_local(h) == builder_local(b)
            &&& handshake_remote(h) == builder_remote(b)
            &&& handshake_prologue(h) == builder_prologue(b)
            &&& forall|slot: u8| handshake_psk(h, slot) == builder_psk(b, slot)
            &&& handshake_step(h) == 0
            &&& !handshake_initiator(h)
            &&& !handshake_writes(h)
        },
;

/// Writes the next handshake message: `snow::HandshakeState::write_message`.
///
/// The message holds a fresh random key, and drawing that key can fail, so
/// success is not promised and the message is named only after the fact. Asked
/// for [`NOISE_PARAMS`] only: other protocols can overrun a short buffer. Claims
/// that the message stands at the front of the buffer, that it is written only
/// when it is this side's turn and at its exact length, that the turn then
/// passes, and that the message reaches every peer that was in step.
pub assume_specification[ snow::HandshakeState::write_message ](
    h: &mut snow::HandshakeState,
    payload: &[u8],
    message: &mut [u8],
) -> (r: Result<usize, snow::Error>)
    requires
        handshake_name(*old(h)) == NOISE_PARAMS@,
    ensures
        same_settings(*final(h), *old(h)),
        final(message)@.len() == old(message)@.len(),
        r matches Ok(n) ==> {
            &&& n <= old(message)@.len()
            &&& final(message)@.take(n as int) == handshake_written(*final(h))
            &&& handshake_writes(*old(h))
            &&& !handshake_writes(*final(h))
            &&& handshake_step(*final(h)) == handshake_step(*old(h)) + 1
            &&& n == payload@.len() + HANDSHAKE_OVERHEAD
            &&& n <= MAX_MESSAGE
            &&& forall|peer: snow::HandshakeState|
                in_step(*old(h), peer) ==> #[trigger] reaches(*final(h), peer)
        },
;

/// Reads the next handshake message: `snow::HandshakeState::read_message`.
///
/// Asked for [`NOISE_PARAMS`] only: other protocols can overrun a short buffer.
/// Reading draws nothing at random: given a buffer that any payload fits,
/// whether the message is accepted, and what the handshake then is, depends on
/// the handshake and the message alone. Claims too that a message is read only
/// when it is the peer's turn and the message is long enough, and that the turn
/// then passes. Which messages decrypt is left unsaid.
pub assume_specification[ snow::HandshakeState::read_message ](
    h: &mut snow::HandshakeState,
    message: &[u8],
    payload: &mut [u8],
) -> (r: Result<usize, snow::Error>)
    requires
        handshake_name(*old(h)) == NOISE_PARAMS@,
    ensures
        same_settings(*final(h), *old(h)),
        final(payload)@.len() == old(payload)@.len(),
        old(payload)@.len() >= MAX_MESSAGE ==> (r is Ok <==> readable(*old(h), message@)),
        r is Ok ==> *final(h) == after_reading(*old(h), message@),
        r matches Ok(n) ==> {
            &&& !handshake_writes(*old(h))
            &&& handshake_writes(*final(h))
            &&& handshake_step(*final(h)) == handshake_step(*old(h)) + 1
            &&& HANDSHAKE_OVERHEAD <= message@.len() <= MAX_MESSAGE
            &&& n == message@.len() - HANDSHAKE_OVERHEAD
            &&& n <= old(payload)@.len()
        },
;

/// Ends a handshake: `snow::HandshakeState::into_transport_mode`.
///
/// Asked for [`NOISE_PARAMS`] only. Claims that it succeeds exactly when both
/// messages have passed, and that the session then has one key per direction,
/// derived from the secret that was agreed on, and counters at zero.
pub assume_specification[ snow::HandshakeState::into_transport_mode ](
    h: snow::HandshakeState,
) -> (r: Result<snow::TransportState, snow::Error>)
    requires
        handshake_name(h) == NOISE_PARAMS@,
    ensures
        r is Ok <==> handshake_step(h) == HANDSHAKE_MESSAGES,
        r matches Ok(t) ==> {
            &&& two_way(t)
            &&& sealing_key(t) == traffic_key(handshake_secret(h), handshake_initiator(h))
            &&& opening_key(t) == traffic_key(handshake_secret(h), !handshake_initiator(h))
            &&& sending_nonce(t) == 0
            &&& receiving_nonce(t) == 0
        },
;

// ---------------------------------------------------------------------------
// An established session
// ---------------------------------------------------------------------------

/// The cipher and key of the direction that starts at the initiator, or of the
/// other, for the secret that a handshake agreed on.
pub uninterp spec fn traffic_key(secret: Seq<u8>, from_initiator: bool) -> Seq<u8>;

/// Whether a session has keys for both directions.
pub uninterp spec fn two_way(t: snow::TransportState) -> bool;

/// The cipher and key a session encrypts with.
pub uninterp spec fn sealing_key(t: snow::TransportState) -> Seq<u8>;

/// The cipher and key a session decrypts with.
pub uninterp spec fn opening_key(t: snow::TransportState) -> Seq<u8>;

/// The counter of the next message out: `TransportState::sending_nonce`.
pub uninterp spec fn sending_nonce(t: snow::TransportState) -> u64;

/// The counter of the next message in: `TransportState::receiving_nonce`.
pub uninterp spec fn receiving_nonce(t: snow::TransportState) -> u64;

/// What encrypting `plain` under `key` and `nonce` gives.
pub uninterp spec fn sealed(key: Seq<u8>, nonce: u64, plain: Seq<u8>) -> Seq<u8>;

/// What decrypting `cipher` under `key` and `nonce` gives, if its tag verifies.
pub uninterp spec fn opened(key: Seq<u8>, nonce: u64, cipher: Seq<u8>) -> Option<Seq<u8>>;

/// Encrypts one message: `snow::TransportState::write_message`.
///
/// Claims that it fails exactly when the message would be too long, the buffer
/// is too short or the counter is used up, and then changes nothing; otherwise
/// that the ciphertext stands at the front of the buffer, that only the sending
/// counter moves on, and that the ciphertext opens to the plaintext.
pub assume_specification[ snow::TransportState::write_message ](
    t: &mut snow::TransportState,
    payload: &[u8],
    message: &mut [u8],
) -> (r: Result<usize, snow::Error>)
    requires
        two_way(*old(t)),
    ensures
        two_way(*final(t)),
        sealing_key(*final(t)) == sealing_key(*old(t)),
        opening_key(*final(t)) == opening_key(*old(t)),
        receiving_nonce(*final(t)) == receiving_nonce(*old(t)),
        final(message)@.len() == old(message)@.len(),
        r is Ok <==> {
            &&& payload@.len() + TAG_LEN <= MAX_MESSAGE
            &&& payload@.len() + TAG_LEN <= old(message)@.len()
            &&& sending_nonce(*old(t)) != u64::MAX
        },
        r matches Ok(n) ==> {
            let cipher = sealed(sealing_key(*old(t)), sending_nonce(*old(t)), payload@);
            &&& n == payload@.len() + TAG_LEN
            &&& cipher.len() == n
            &&& final(message)@ == cipher + old(message)@.skip(n as int)
            &&& opened(sealing_key(*old(t)), sending_nonce(*old(t)), cipher) == Some(payload@)
            &&& sending_nonce(*final(t)) == sending_nonce(*old(t)) + 1
        },
        r is Err ==> sending_nonce(*final(t)) == sending_nonce(*old(t)),
;

/// Decrypts one message: `snow::TransportState::read_message`.
///
/// Claims that it succeeds exactly when the message has an admissible length,
/// fits the buffer, the counter is not used up and the tag verifies; then that
/// the plaintext stands at the front of the buffer and only the receiving
/// counter moves on. On failure no counter moves, and what is in the buffer is
/// left unsaid.
pub assume_specification[ snow::TransportState::read_message ](
    t: &mut snow::TransportState,
    message: &[u8],
    payload: &mut [u8],
) -> (r: Result<usize, snow::Error>)
    requires
        two_way(*old(t)),
    ensures
        two_way(*final(t)),
        sealing_key(*final(t)) == sealing_key(*old(t)),
        opening_key(*final(t)) == opening_key(*old(t)),
        sending_nonce(*final(t)) == sending_nonce(*old(t)),
        final(payload)@.len() == old(payload)@.len(),
        r is Ok <==> {
            &&& TAG_LEN <= message@.len() <= MAX_MESSAGE
            &&& message@.len() - TAG_LEN <= old(payload)@.len()
            &&& receiving_nonce(*old(t)) != u64::MAX
            &&& opened(opening_key(*old(t)), receiving_nonce(*old(t)), message@) is Some
        },
        r matches Ok(n) ==> {
            let plain = opened(opening_key(*old(t)), receiving_nonce(*old(t)), message@)->0;
            &&& n == message@.len() - TAG_LEN
            &&& plain.len() == n
            &&& final(payload)@ == plain + old(payload)@.skip(n as int)
            &&& receiving_nonce(*final(t)) == receiving_nonce(*old(t)) + 1
        },
        r is Err ==> receiving_nonce(*final(t)) == receiving_nonce(*old(t)),
;

} // verus!
