use rs_srp::buffer::Buffer;
use rs_srp::logging::default_level;
use rs_srp::mux::{Driver, Event, Step};
use rs_srp::session::{chunk_len, Fed, RecordReader};
use rs_srp::types::{host_port, Endpoint, ProxyKind, TransportKind};
use rs_srp::wss::{request_url, WsMessage, WsRead, WsStream};

#[test]
fn websocket_messages_become_a_byte_stream() {
    let mut s = WsStream::new();
    assert_eq!(s.poll_read(10), None);
    assert_eq!(s.on_message(WsMessage::Binary(b"hello".to_vec())), WsRead::Continue);
    assert_eq!(s.poll_read(2), Some(b"he".to_vec()));
    assert_eq!(s.poll_read(0), Some(vec![]));
    assert_eq!(s.poll_read(10), Some(b"llo".to_vec()));
    assert_eq!(s.poll_read(10), None);
    assert_eq!(s.on_message(WsMessage::Other), WsRead::Continue);
    assert_eq!(s.poll_read(10), None);
    assert_eq!(s.on_message(WsMessage::Binary(vec![])), WsRead::Continue);
    assert_eq!(s.poll_read(10), None);
    assert_eq!(s.on_message(WsMessage::Binary(b"!".to_vec())), WsRead::Continue);
    assert_eq!(s.poll_read(1), Some(b"!".to_vec()));
    assert_eq!(s.on_message(WsMessage::Close), WsRead::Eof);
}

#[test]
fn upgrade_url() {
    assert_eq!(request_url("srp.example.com", "/srp-tunnel"), "ws://srp.example.com/srp-tunnel");
}

fn run(events: &[Event]) -> Driver {
    let mut d = Driver::new();
    for e in events {
        d.advance(*e);
    }
    d
}

#[test]
fn an_idle_driver_pumps_and_sleeps() {
    let mut d = Driver::new();
    assert_eq!(d.next, Step::PollRequests);
    d.advance(Event::NoRequest);
    assert_eq!(d.next, Step::PollInbound);
    d.advance(Event::Accepted);
    assert_eq!(d.next, Step::PollRequests);
    d.advance(Event::NoRequest);
    d.advance(Event::InboundPending);
    assert_eq!(d.next, Step::Wait);
    d.advance(Event::Woken);
    assert_eq!(d.next, Step::PollRequests);
}

#[test]
fn requests_are_taken_one_at_a_time() {
    let d = run(&[Event::Requested]);
    assert_eq!(d.next, Step::PollOutbound);
    assert!(d.pending);
    // While the request is in flight no other is looked for.
    let d = run(&[Event::Requested, Event::OutboundPending]);
    assert_eq!(d.next, Step::PollInbound);
    let d = run(&[Event::Requested, Event::OutboundPending, Event::InboundPending, Event::Woken]);
    assert_eq!(d.next, Step::PollOutbound);
    let d = run(&[Event::Requested, Event::OutboundPending, Event::Accepted]);
    assert_eq!(d.next, Step::PollOutbound);
    let d = run(&[Event::Requested, Event::Answered]);
    assert_eq!(d.next, Step::PollRequests);
    assert!(!d.pending);
}

#[test]
fn the_driver_closes_for_three_reasons() {
    assert_eq!(run(&[Event::RequestsClosed]).next, Step::Close);
    assert_eq!(run(&[Event::NoRequest, Event::Unwanted]).next, Step::Close);
    assert_eq!(run(&[Event::NoRequest, Event::Ended]).next, Step::Close);
}

#[test]
fn names_of_kinds() {
    assert_eq!(TransportKind::Tcp.as_str(), "tcp");
    assert_eq!(TransportKind::Quic.as_str(), "quic");
    assert_eq!(TransportKind::Wss.as_str(), "wss");
    assert_eq!(ProxyKind::Tcp.as_str(), "tcp");
    assert_eq!(ProxyKind::Udp.as_str(), "udp");
}

#[test]
fn endpoints_as_text() {
    assert_eq!(host_port("example.com", 0), "example.com:0");
    assert_eq!(Endpoint { host: "[::1]".to_string(), port: 65535 }.to_text(), "[::1]:65535");
}

#[test]
fn log_levels() {
    assert_eq!(default_level(false), "info");
    assert_eq!(default_level(true), "debug");
}

#[test]
fn buffers_hand_over_from_the_front() {
    let mut b = Buffer::new();
    assert!(b.is_empty());
    assert_eq!(b.take(4), Vec::<u8>::new());
    b.load(b"abcdef".to_vec());
    assert_eq!(b.take(2), b"ab");
    assert_eq!(b.left(), b"cdef");
    b.skip(1);
    assert_eq!(b.left(), b"def");
    assert_eq!(b.take(0), b"");
    assert_eq!(b.take(9), b"def");
    assert!(b.is_empty());
    b.load(b"x".to_vec());
    b.load(b"y".to_vec());
    b.skip(1);
    assert!(b.is_empty());
}

#[test]
fn records_are_put_together() {
    let mut r = RecordReader::new();
    assert_eq!(r.wanted(), 2);
    assert_eq!(r.feed(&[0]), Fed::Taken);
    assert_eq!(r.wanted(), 1);
    assert_eq!(r.feed(&[3]), Fed::Taken);
    assert_eq!(r.wanted(), 3);
    assert_eq!(r.feed(&[7, 8]), Fed::Taken);
    assert_eq!(r.wanted(), 1);
    assert_eq!(r.feed(&[9]), Fed::Taken);
    assert_eq!(r.wanted(), 0);
    assert_eq!(r.take(), vec![7, 8, 9]);
    assert_eq!(r.wanted(), 2);
    assert_eq!(r.feed(&[]), Fed::Eof);
    assert_eq!(r.feed(&[0, 0]), Fed::Taken);
    assert_eq!(r.wanted(), 0);
    assert_eq!(r.take(), Vec::<u8>::new());
}

#[test]
fn chunks_have_a_maximum() {
    assert_eq!(chunk_len(0), 0);
    assert_eq!(chunk_len(65518), 65518);
    assert_eq!(chunk_len(65519), 65519);
    assert_eq!(chunk_len(65520), 65519);
}
