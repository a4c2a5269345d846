use rs_srp::identity::{ServerIdentity, StateDir};
use rs_srp::session::{
    accept, connect, read_hs, write_hs, Fed, HandshakeError, HandshakeRead, NoiseStream, ReadStep,
    WriteZero, MAX_PLAINTEXT,
};

fn keypair() -> (Vec<u8>, Vec<u8>) {
    let mut dir = StateDir { tls_cert: None, tls_key: None, noise_priv: None, noise_pub: None };
    let id = match ServerIdentity::load_or_create(&mut dir) {
        Ok(id) => id,
        Err(_) => panic!("no identity"),
    };
    (id.noise_private_key().to_vec(), id.noise_public_key().to_vec())
}

fn message(frame: &[u8]) -> Vec<u8> {
    match read_hs(frame) {
        HandshakeRead::Message(msg) => msg,
        HandshakeRead::Need(n) => panic!("{} bytes missing", n),
    }
}

/// Both ends of a session; `Err` says which side refused the other's message.
fn handshake(
    private: &[u8],
    public: &[u8],
    server_psk: &[u8; 32],
    client_psk: &[u8; 32],
) -> Result<(NoiseStream, NoiseStream), HandshakeError> {
    let (initiator, first) = connect(public, client_psk)?;
    assert_eq!(first.len(), 50);
    let responder = accept(private, server_psk)?;
    let (server, second) = responder.respond(&message(&first))?;
    assert_eq!(second.len(), 50);
    let client = initiator.finish(&message(&second))?;
    Ok((client, server))
}

fn pair(psk: [u8; 32]) -> (NoiseStream, NoiseStream) {
    let (private, public) = keypair();
    match handshake(&private, &public, &psk, &psk) {
        Ok(ends) => ends,
        Err(_) => panic!("handshake failed"),
    }
}

/// Writes all of `payload`, sending at most `step` bytes at a time.
fn write_all(s: &mut NoiseStream, payload: &[u8], step: usize) -> Vec<u8> {
    let mut wire = Vec::new();
    let mut at = 0;
    while at < payload.len() {
        at += match s.poll_write(&payload[at..]) {
            Ok(n) => n,
            Err(_) => panic!("not encrypted"),
        };
        while !s.pending().is_empty() {
            let n = s.pending().len().min(step);
            wire.extend_from_slice(&s.pending()[..n]);
            s.poll_drain(n).unwrap();
        }
    }
    wire
}

/// Reads until the wire is used up, at most `step` bytes of it at a time, with
/// room for `room` bytes of plaintext.
fn read_all(s: &mut NoiseStream, wire: &[u8], step: usize, room: usize) -> Vec<u8> {
    let mut out = Vec::new();
    let mut at = 0;
    loop {
        match s.poll_read(room) {
            ReadStep::Deliver(data) => out.extend_from_slice(&data),
            ReadStep::Want(n) => {
                let n = n.min(step).min(wire.len() - at);
                match s.feed(&wire[at..at + n]) {
                    Fed::Taken => at += n,
                    Fed::Eof => return out,
                    Fed::UnexpectedEof => panic!("ended within a record"),
                }
            }
            ReadStep::Corrupt(_) => panic!("record refused"),
        }
    }
}

#[test]
fn noise_roundtrip_over_duplex() {
    let (mut client, mut server) = pair([0x5a; 32]);
    let wire = write_all(&mut client, b"hello", 4096);
    let buf = read_all(&mut server, &wire, 4096, 5);
    let wire = write_all(&mut server, b"world", 4096);
    let reply = read_all(&mut client, &wire, 4096, 5);
    assert_eq!(&reply, b"world");
    assert_eq!(&buf, b"hello");
}

#[test]
fn wrong_psk_fails_handshake() {
    let (private, public) = keypair();
    let r = handshake(&private, &public, &[1u8; 32], &[2u8; 32]);
    assert!(r.is_err(), "mismatched PSK must fail");
    assert!(matches!(r, Err(HandshakeError::Message1(_))));
}

#[test]
fn large_payload_spans_multiple_records() {
    let (mut client, mut server) = pair([0x11; 32]);
    let payload: Vec<u8> = (0..200_000u32).map(|i| i as u8).collect();
    let wire = write_all(&mut client, &payload, 4096);
    assert_eq!(wire.len(), 200_000 + 4 * 18);
    let got = read_all(&mut server, &wire, 4096, 8192);
    assert!(got == payload, "payload must survive record framing");
}

#[test]
fn wrong_server_key_fails_handshake() {
    let (private, _) = keypair();
    let (_, public) = keypair();
    let r = handshake(&private, &public, &[7u8; 32], &[7u8; 32]);
    assert!(matches!(r, Err(HandshakeError::Message1(_))));
}

#[test]
fn garbled_handshake_messages_are_refused() {
    let (private, public) = keypair();
    let psk = [9u8; 32];
    let responder = match accept(&private, &psk) {
        Ok(r) => r,
        Err(_) => panic!("no responder"),
    };
    assert!(matches!(responder.respond(b"short"), Err(HandshakeError::Message1(_))));
    let (initiator, _) = match connect(&public, &psk) {
        Ok(v) => v,
        Err(_) => panic!("no initiator"),
    };
    assert!(matches!(initiator.finish(&[0u8; 48]), Err(HandshakeError::Message2(_))));
}

#[test]
fn byte_by_byte_delivery_gives_the_same_bytes() {
    let (mut client, mut server) = pair([3; 32]);
    let mut wire = write_all(&mut client, b"one", 1);
    wire.extend(write_all(&mut client, b"two and three", 1));
    assert_eq!(read_all(&mut server, &wire, 1, 1), b"onetwo and three");
}

#[test]
fn ciphertext_is_not_the_plaintext() {
    let (mut client, _) = pair([4; 32]);
    let wire = write_all(&mut client, b"attack at dawn", 4096);
    assert_eq!(wire.len(), 2 + 14 + 16);
    assert_eq!(&wire[..2], &[0, 30]);
    assert!(!wire.windows(14).any(|w| w == b"attack at dawn"));
}

#[test]
fn one_record_carries_at_most_the_maximum() {
    let (mut client, _) = pair([5; 32]);
    let payload = vec![1u8; MAX_PLAINTEXT + 1];
    assert_eq!(MAX_PLAINTEXT, 65519);
    assert!(matches!(client.poll_write(&payload), Ok(65519)));
    assert_eq!(client.pending().len(), 2 + 65535);
    assert_eq!(&client.pending()[..2], &[0xff, 0xff]);
}

#[test]
fn writing_nothing_sends_nothing() {
    let (mut client, _) = pair([6; 32]);
    assert!(matches!(client.poll_write(&[]), Ok(0)));
    assert!(client.pending().is_empty());
}

#[test]
fn accepting_no_bytes_is_an_error() {
    let (mut client, _) = pair([6; 32]);
    assert!(client.poll_write(b"x").is_ok());
    let before = client.pending().to_vec();
    assert_eq!(client.poll_drain(0), Err(WriteZero));
    assert_eq!(client.pending(), &before[..]);
    assert_eq!(client.poll_drain(5), Ok(()));
    assert_eq!(client.pending(), &before[5..]);
}

#[test]
fn tampered_records_are_refused_and_dropped() {
    let (mut client, mut server) = pair([8; 32]);
    let mut wire = write_all(&mut client, b"hello", 4096);
    wire[7] ^= 1;
    assert!(matches!(server.poll_read(10), ReadStep::Want(2)));
    assert_eq!(server.feed(&wire[..2]), Fed::Taken);
    assert!(matches!(server.poll_read(10), ReadStep::Want(21)));
    assert_eq!(server.feed(&wire[2..]), Fed::Taken);
    assert!(matches!(server.poll_read(10), ReadStep::Corrupt(_)));
    assert!(matches!(server.poll_read(10), ReadStep::Want(2)));
}

#[test]
fn an_empty_record_is_refused() {
    let (_, mut server) = pair([8; 32]);
    assert_eq!(server.feed(&[0, 0]), Fed::Taken);
    assert_eq!(server.wanted(), 0);
    assert!(matches!(server.poll_read(10), ReadStep::Corrupt(_)));
}

#[test]
fn records_cannot_be_replayed() {
    let (mut client, mut server) = pair([8; 32]);
    let wire = write_all(&mut client, b"once", 4096);
    assert_eq!(read_all(&mut server, &wire, 4096, 100), b"once");
    assert_eq!(server.feed(&wire[..2]), Fed::Taken);
    assert_eq!(server.feed(&wire[2..]), Fed::Taken);
    assert!(matches!(server.poll_read(10), ReadStep::Corrupt(_)));
}

#[test]
fn end_of_stream_is_clean_only_between_records() {
    let (_, mut server) = pair([8; 32]);
    assert_eq!(server.feed(&[]), Fed::Eof);
    assert_eq!(server.feed(&[0]), Fed::Taken);
    assert_eq!(server.wanted(), 1);
    assert_eq!(server.feed(&[]), Fed::UnexpectedEof);
    assert_eq!(server.wanted(), 2);
    assert_eq!(server.feed(&[0, 20]), Fed::Taken);
    assert_eq!(server.feed(&[1; 19]), Fed::Taken);
    assert_eq!(server.wanted(), 1);
    assert_eq!(server.feed(&[]), Fed::UnexpectedEof);
    assert_eq!(server.wanted(), 2);
}

#[test]
fn handshake_frames_are_read_back() {
    let msg: Vec<u8> = (0..300u32).map(|i| i as u8).collect();
    let frame = write_hs(&msg);
    assert_eq!(&frame[..2], &[1, 44]);
    assert!(matches!(read_hs(&[]), HandshakeRead::Need(2)));
    assert!(matches!(read_hs(&frame[..1]), HandshakeRead::Need(1)));
    assert!(matches!(read_hs(&frame[..2]), HandshakeRead::Need(300)));
    assert!(matches!(read_hs(&frame[..301]), HandshakeRead::Need(1)));
    assert_eq!(message(&frame), msg);
    let mut more = frame.clone();
    more.extend_from_slice(b"rest");
    assert_eq!(message(&more), msg);
    assert_eq!(message(&write_hs(&[])), Vec::<u8>::new());
}
