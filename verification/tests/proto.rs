use rs_srp::proto::{
    read_datagram, read_frame, write_datagram, write_frame, FrameRead, TooLarge, MAX_DATAGRAM,
    MAX_FRAME,
};

fn payload(r: FrameRead) -> Vec<u8> {
    match r {
        FrameRead::Payload(data) => data,
        other => panic!("no payload: {:?}", other),
    }
}

#[test]
fn frames_carry_a_big_endian_length() {
    assert_eq!(write_frame(b"abc").unwrap(), vec![0, 0, 0, 3, b'a', b'b', b'c']);
    assert_eq!(write_datagram(&[]).unwrap(), vec![0, 0, 0, 0]);
    let big = vec![7u8; 65536];
    assert_eq!(&write_frame(&big).unwrap()[..4], &[0, 1, 0, 0]);
    assert_eq!(&write_datagram(&big[..0x1234]).unwrap()[..4], &[0, 0, 0x12, 0x34]);
}

#[test]
fn frames_are_read_back_with_anything_behind() {
    let mut wire = write_frame(b"hello").unwrap();
    wire.extend_from_slice(b"more");
    assert_eq!(payload(read_frame(&wire)), b"hello");
    assert_eq!(payload(read_datagram(&wire)), b"hello");
    assert_eq!(payload(read_frame(&[0, 0, 0, 0])), b"");
}

#[test]
fn partial_frames_ask_for_what_is_missing() {
    let wire = write_frame(b"hello").unwrap();
    for k in 0..4 {
        assert!(matches!(read_frame(&wire[..k]), FrameRead::Need(n) if n == 4 - k));
    }
    for k in 4..9 {
        assert!(matches!(read_frame(&wire[..k]), FrameRead::Need(n) if n == 9 - k));
        assert!(matches!(read_datagram(&wire[..k]), FrameRead::Need(n) if n == 9 - k));
    }
}

#[test]
fn the_limit_itself_is_accepted() {
    let big = vec![9u8; MAX_FRAME];
    assert_eq!(payload(read_frame(&write_frame(&big).unwrap())), big);
    let big = vec![9u8; MAX_DATAGRAM];
    assert_eq!(payload(read_datagram(&write_datagram(&big).unwrap())), big);
}

#[test]
fn payloads_beyond_the_limit_are_refused() {
    let big = vec![0u8; 65537];
    assert_eq!(write_frame(&big), Err(TooLarge { len: 65537 }));
    assert_eq!(write_datagram(&big), Err(TooLarge { len: 65537 }));
    assert_eq!(
        write_frame(&big).unwrap_err().frame_message(),
        "control frame too large: 65537 bytes"
    );
    assert_eq!(
        write_datagram(&big).unwrap_err().datagram_message(),
        "datagram too large: 65537 bytes"
    );
}

#[test]
fn length_prefixes_beyond_the_limit_are_refused_at_once() {
    assert!(matches!(
        read_frame(&[0, 1, 0, 1]),
        FrameRead::Refused(TooLarge { len: 65537 })
    ));
    assert!(matches!(
        read_datagram(&[0xff, 0xff, 0xff, 0xff, 1, 2]),
        FrameRead::Refused(TooLarge { len: 0xffff_ffff })
    ));
}

#[test]
fn datagram_boundaries_survive_a_byte_stream() {
    let sent: Vec<Vec<u8>> = vec![b"one".to_vec(), vec![], b"three".to_vec(), vec![5; 1500]];
    let mut wire = Vec::new();
    for dg in &sent {
        wire.extend(write_datagram(dg).unwrap());
    }
    let mut got = Vec::new();
    let mut at = 0;
    while at < wire.len() {
        let dg = payload(read_datagram(&wire[at..]));
        at += 4 + dg.len();
        got.push(dg);
    }
    assert_eq!(got, sent);
}
