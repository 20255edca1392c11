use rustcomm::connection::ShutdownHow;
use rustcomm::quic::{deliver_read, is_usable_stream, nearest_timeout, ConnectionEvent, QuicStream, StreamDir, StreamEventKind};
use rustcomm::transport::TransportEvent;
use std::sync::Arc;
use std::time::Instant;

/// A client connection whose handshake has not begun: no stream can be
/// opened on it yet.
fn fresh_connection() -> quinn_proto::Connection {
    let crypto = rustls::ClientConfig::builder()
        .with_root_certificates(rustls::RootCertStore::empty())
        .with_no_client_auth();
    let quic_crypto = quinn_proto::crypto::rustls::QuicClientConfig::try_from(crypto).unwrap();
    let config = quinn_proto::ClientConfig::new(Arc::new(quic_crypto));
    let mut endpoint = quinn_proto::Endpoint::new(
        Arc::new(quinn_proto::EndpointConfig::default()),
        None,
        false,
        None,
    );
    let (_, conn) = endpoint
        .connect(Instant::now(), config, "127.0.0.1:4433".parse().unwrap(), "localhost")
        .unwrap();
    conn
}

#[test]
fn usable_streams_are_bidirectional_62_bit_ids() {
    assert!(is_usable_stream(0));
    assert!(is_usable_stream(1));
    assert!(is_usable_stream(4));
    assert!(is_usable_stream(5));
    assert!(!is_usable_stream(2));
    assert!(!is_usable_stream(3));
    assert!(!is_usable_stream(7));
    assert!(is_usable_stream((1u64 << 62) - 4));
    assert!(!is_usable_stream(1u64 << 62));
}

#[test]
fn new_stream_state_is_empty() {
    let stream = QuicStream::new();
    assert_eq!(stream.stream(), None);
    assert!(stream.queued().is_empty());
}

#[test]
fn send_before_handshake_only_queues() {
    let mut conn = fresh_connection();
    let mut stream = QuicStream::new();
    assert!(stream.send(&mut conn, b"hello".to_vec()));
    assert!(stream.send(&mut conn, b" world".to_vec()));
    assert_eq!(stream.queued(), b"hello world");
    assert_eq!(stream.stream(), None);
}

#[test]
fn send_after_write_shutdown_is_dropped() {
    let mut conn = fresh_connection();
    let mut stream = QuicStream::new();
    assert!(stream.send(&mut conn, b"abc".to_vec()));
    assert!(!stream.request_shutdown(&mut conn, ShutdownHow::Write));
    assert!(!stream.send(&mut conn, b"def".to_vec()));
    assert_eq!(stream.queued(), b"abc");
}

#[test]
fn read_shutdown_keeps_sending() {
    let mut conn = fresh_connection();
    let mut stream = QuicStream::new();
    assert!(!stream.request_shutdown(&mut conn, ShutdownHow::Read));
    assert!(stream.send(&mut conn, b"still".to_vec()));
    assert_eq!(stream.queued(), b"still");
}

#[test]
fn full_shutdown_asks_to_close_the_connection() {
    let mut conn = fresh_connection();
    let mut stream = QuicStream::new();
    assert!(stream.request_shutdown(&mut conn, ShutdownHow::Both));
    assert!(!stream.send(&mut conn, b"late".to_vec()));
    assert!(stream.queued().is_empty());
}

#[test]
fn finished_and_stopped_streams_disconnect() {
    let mut conn = fresh_connection();
    let mut stream = QuicStream::new();
    let mut events = Vec::new();
    stream.on_stream_event(7, &mut conn, StreamEventKind::Finished, &mut events);
    stream.on_stream_event(7, &mut conn, StreamEventKind::Stopped, &mut events);
    stream.on_stream_event(7, &mut conn, StreamEventKind::Available, &mut events);
    assert_eq!(
        events,
        vec![
            TransportEvent::Disconnected { id: 7 },
            TransportEvent::Disconnected { id: 7 },
        ]
    );
}

#[test]
fn unidirectional_streams_are_ignored() {
    let mut conn = fresh_connection();
    let mut stream = QuicStream::new();
    let mut events = Vec::new();
    stream.on_stream_event(3, &mut conn, StreamEventKind::Readable { stream: 2 }, &mut events);
    stream.on_stream_event(3, &mut conn, StreamEventKind::Writable { stream: 3 }, &mut events);
    stream.on_stream_event(3, &mut conn, StreamEventKind::Opened { dir: StreamDir::Uni }, &mut events);
    assert!(events.is_empty());
    assert_eq!(stream.stream(), None);
}

#[test]
fn writable_stream_becomes_the_connection_stream() {
    let mut conn = fresh_connection();
    let mut stream = QuicStream::new();
    let mut events = Vec::new();
    stream.on_stream_event(3, &mut conn, StreamEventKind::Writable { stream: 4 }, &mut events);
    assert_eq!(stream.stream(), Some(4));
    stream.on_stream_event(3, &mut conn, StreamEventKind::Writable { stream: 8 }, &mut events);
    assert_eq!(stream.stream(), Some(4));
    assert!(events.is_empty());
}

#[test]
fn lost_before_handshake_is_a_failed_connection() {
    let mut conn = fresh_connection();
    let mut stream = QuicStream::new();
    let mut events = Vec::new();
    assert!(!stream.on_connection_event(9, &mut conn, ConnectionEvent::ConnectionLost, &mut events));
    assert_eq!(events, vec![TransportEvent::ConnectionFailed { id: 9 }]);
}

#[test]
fn handshake_reported_once_then_lost_is_a_disconnect() {
    let mut conn = fresh_connection();
    let mut stream = QuicStream::new();
    let mut events = Vec::new();
    assert!(stream.on_connection_event(9, &mut conn, ConnectionEvent::Connected, &mut events));
    assert!(stream.on_connection_event(9, &mut conn, ConnectionEvent::Connected, &mut events));
    assert!(stream.on_connection_event(9, &mut conn, ConnectionEvent::Other, &mut events));
    assert!(!stream.on_connection_event(9, &mut conn, ConnectionEvent::ConnectionLost, &mut events));
    assert_eq!(
        events,
        vec![
            TransportEvent::Connected { id: 9 },
            TransportEvent::Disconnected { id: 9 },
        ]
    );
}

#[test]
fn polling_a_fresh_connection_reports_its_events() {
    let mut conn = fresh_connection();
    let mut stream = QuicStream::new();
    let mut events = Vec::new();
    let mut steps = 0;
    while let Some(alive) = stream.next_connection_event(1, &mut conn, &mut events) {
        assert!(alive);
        steps += 1;
        assert!(steps < 100);
    }
    assert!(events.is_empty());
}

#[test]
fn nearest_timer_bounds_the_poll() {
    assert_eq!(nearest_timeout(&[]), None);
    assert_eq!(nearest_timeout(&[500]), Some(500));
    assert_eq!(nearest_timeout(&[700, 300, 900]), Some(300));
    assert_eq!(nearest_timeout(&[700, 0, 900]), Some(0));
}

#[test]
fn read_bytes_become_one_data_event() {
    let mut events = Vec::new();
    deliver_read(4, Ok(vec![1, 2, 3]), &mut events);
    deliver_read(4, Ok(Vec::new()), &mut events);
    deliver_read(4, Err(quinn_proto::ReadableError::ClosedStream), &mut events);
    assert_eq!(events, vec![TransportEvent::Data { id: 4, data: vec![1, 2, 3] }]);
}

#[test]
fn written_bytes_leave_the_front_of_the_queue() {
    let mut conn = fresh_connection();
    let mut stream = QuicStream::new();
    assert!(stream.send(&mut conn, b"hello".to_vec()));
    assert!(stream.take_written(Ok(2)));
    assert_eq!(stream.queued(), b"llo");
    assert!(!stream.take_written(Ok(0)));
    assert!(!stream.take_written(Err(quinn_proto::WriteError::Blocked)));
    assert_eq!(stream.queued(), b"llo");
    assert!(stream.take_written(Ok(3)));
    assert!(stream.queued().is_empty());
}
