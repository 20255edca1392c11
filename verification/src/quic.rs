//! The stream management of a QUIC connection.
//!
//! Each QUIC connection carries one bidirectional stream: the first one that
//! either side opens. Bytes queued for sending wait in a send buffer until
//! the stream exists and accepts them; half shutdowns are recorded when they
//! are requested and applied once the stream exists. The connection itself
//! (handshake, flow control, packets) is quinn-proto's `Connection`; the
//! calls into it stand behind the wrappers below.
//!
//! Only bidirectional streams carry data here. Events about unidirectional
//! streams, which this protocol never opens, are ignored.
use crate::connection::{shutdown_directions, ShutdownHow, StreamHalfShutdown};
use crate::transport::{lost_connection_event, TransportEvent};
use vstd::prelude::*;

verus! {

/// quinn-proto's state machine of one connection.
#[verifier::external_type_specification]
#[verifier::external_body]
pub struct ExQuicConnection(quinn_proto::Connection);

/// A stream event of a quinn-proto connection.
#[verifier::external_type_specification]
#[verifier::external_body]
pub struct ExQuicStreamEvent(quinn_proto::StreamEvent);

/// Why quinn-proto refused a write.
#[verifier::external_type_specification]
#[verifier::external_body]
pub struct ExQuicWriteError(quinn_proto::WriteError);

/// Why quinn-proto refused to finish a send stream.
#[verifier::external_type_specification]
#[verifier::external_body]
pub struct ExQuicFinishError(quinn_proto::FinishError);

/// quinn-proto's error for an operation on a stream that is closed.
#[verifier::external_type_specification]
#[verifier::external_body]
pub struct ExQuicClosedStream(quinn_proto::ClosedStream);

/// Why quinn-proto refused to read a receive stream.
#[verifier::external_type_specification]
#[verifier::external_body]
pub struct ExQuicReadableError(quinn_proto::ReadableError);

/// Whether `raw` is the ID of a stream that this library sends and receives
/// on: a QUIC variable-length integer (below 2^62) whose bit 1 is clear,
/// which marks a bidirectional stream.
pub open spec fn usable_stream(raw: u64) -> bool {
    raw < 0x4000_0000_0000_0000 && (raw / 2) % 2 == 0
}

/// Whether `raw` is the ID of a usable stream.
pub fn is_usable_stream(raw: u64) -> (r: bool)
    ensures
        r == usable_stream(raw),
{
    raw < 0x4000_0000_0000_0000 && (raw / 2) % 2 == 0
}

/// Opens a bidirectional stream and returns its ID.
///
/// Calls `Streams::open(Dir::Bi)`, which gives `None` when the connection is
/// closed or the peer allows no more streams. That depends on the
/// connection's state, so nothing is stated about the result.
#[verifier::external_body]
fn open_bi_stream(conn: &mut quinn_proto::Connection) -> Option<u64> {
    conn.streams().open(quinn_proto::Dir::Bi).map(u64::from)
}

/// The direction of a stream.
#[derive(Debug, Clone, Copy, PartialEq, Eq, Structural)]
pub enum StreamDir {
    /// Data flows both ways.
    Bi,
    /// Data flows only from the side that opened the stream.
    Uni,
}

/// Accepts a stream of direction `dir` that the peer opened and returns its
/// ID.
///
/// Calls `Streams::accept`, which gives `None` when no new stream of that
/// direction is waiting. That depends on the connection's state, so nothing
/// is stated about the result.
#[verifier::external_body]
fn accept_stream(conn: &mut quinn_proto::Connection, dir: StreamDir) -> Option<u64> {
    let dir = match dir {
        StreamDir::Bi => quinn_proto::Dir::Bi,
        StreamDir::Uni => quinn_proto::Dir::Uni,
    };
    conn.streams().accept(dir).map(u64::from)
}

/// Writes as much of `data` to stream `stream` as the connection accepts.
/// Public because the contracts of public functions speak of its results.
///
/// Calls `SendStream::write`. Its source writes chunks taken from the front
/// of `data`, so the count it returns is at most the length of `data`. How
/// much is accepted depends on flow control, which is not modelled here.
/// `Connection::send_stream` asserts that the stream can send, which holds
/// for a bidirectional stream.
#[verifier::external_body]
pub fn write_stream(conn: &mut quinn_proto::Connection, stream: u64, data: &[u8]) -> (r: Result<
    usize,
    quinn_proto::WriteError,
>)
    requires
        usable_stream(stream),
    ensures
        r matches Ok(n) ==> n <= data@.len(),
{
    let id = quinn_proto::StreamId::from(quinn_proto::VarInt::from_u64(stream).expect("62-bit ID"));
    conn.send_stream(id).write(data)
}

/// Finishes the send side of stream `stream`.
///
/// Calls `SendStream::finish`, which fails when the peer stopped the stream
/// or the stream is closed; that depends on the connection's state, so
/// nothing is stated about the result.
#[verifier::external_body]
fn finish_stream(conn: &mut quinn_proto::Connection, stream: u64) -> Result<
    (),
    quinn_proto::FinishError,
>
    requires
        usable_stream(stream),
{
    let id = quinn_proto::StreamId::from(quinn_proto::VarInt::from_u64(stream).expect("62-bit ID"));
    conn.send_stream(id).finish()
}

/// Stops the receive side of stream `stream` with `error_code`.
///
/// Calls `RecvStream::stop`, which fails when the stream is closed; that
/// depends on the connection's state, so nothing is stated about the
/// result.
#[verifier::external_body]
fn stop_stream(conn: &mut quinn_proto::Connection, stream: u64, error_code: u32) -> Result<
    (),
    quinn_proto::ClosedStream,
>
    requires
        usable_stream(stream),
{
    let id = quinn_proto::StreamId::from(quinn_proto::VarInt::from_u64(stream).expect("62-bit ID"));
    conn.recv_stream(id).stop(quinn_proto::VarInt::from_u32(error_code))
}

/// Reads every byte that stream `stream` holds for the application.
/// Public because the contracts of public functions speak of its results.
///
/// Calls `RecvStream::read(false)` and takes the chunks that it yields until
/// it yields no more, then finalizes the read; how many chunks come is
/// bounded by nothing this crate can see, so that loop stands here. Which
/// bytes have arrived depends on the connection's state, so nothing is
/// stated about the result.
#[verifier::external_body]
pub fn read_available(conn: &mut quinn_proto::Connection, stream: u64) -> Result<
    Vec<u8>,
    quinn_proto::ReadableError,
>
    requires
        usable_stream(stream),
{
    let id = quinn_proto::StreamId::from(quinn_proto::VarInt::from_u64(stream).expect("62-bit ID"));
    let mut recv = conn.recv_stream(id);
    let mut chunks = recv.read(false)?;
    let mut data = Vec::new();
    while let Ok(Some(chunk)) = chunks.next(usize::MAX) {
        data.extend_from_slice(&chunk.bytes);
    }
    let _ = chunks.finalize();
    Ok(data)
}

/// The time left until the nearest of the connections' timers fires, given
/// the time left for each timer (zero for one that already fired), or
/// `None` when no timer is set. The poller waits at most that long.
pub fn nearest_timeout(remaining: &[u64]) -> (r: Option<u64>)
    ensures
        r is None <==> remaining@.len() == 0,
        r matches Some(m) ==> remaining@.contains(m) && forall|i: int|
            0 <= i < remaining@.len() ==> m <= #[trigger] remaining@[i],
{
    let mut nearest: Option<u64> = None;
    let mut i: usize = 0;
    while i < remaining.len()
        invariant
            i <= remaining@.len(),
            nearest is None <==> i == 0,
            nearest matches Some(m) ==> (exists|j: int| 0 <= j < i && remaining@[j] == m)
                && forall|j: int| 0 <= j < i ==> m <= #[trigger] remaining@[j],
        decreases remaining@.len() - i,
    {
        let t = remaining[i];
        nearest = match nearest {
            Some(m) => if t < m {
                Some(t)
            } else {
                Some(m)
            },
            None => Some(t),
        };
        i = i + 1;
    }
    nearest
}

/// The event list `before` after the outcome `read` of reading a stream of
/// connection `id`: the bytes read, when there are any, as one data event.
pub open spec fn read_delivered(
    before: Seq<TransportEvent>,
    id: usize,
    read: Result<Vec<u8>, quinn_proto::ReadableError>,
) -> Seq<TransportEvent> {
    match read {
        Ok(data) => if data@.len() > 0 {
            before.push(TransportEvent::Data { id, data })
        } else {
            before
        },
        Err(_) => before,
    }
}

/// Whether `read` is what reading stream `stream` of a connection gave:
/// some call of `read_available` on that stream returned it.
pub open spec fn stream_read(stream: u64, read: Result<Vec<u8>, quinn_proto::ReadableError>) -> bool {
    exists|c: &mut quinn_proto::Connection| #[trigger] call_ensures(read_available, (c, stream), read)
}

/// Whether `written` is what writing the bytes `data` to stream `stream` of
/// a connection gave: some call of `write_stream` with those bytes returned
/// it.
pub open spec fn stream_write(
    stream: u64,
    data: Seq<u8>,
    written: Result<usize, quinn_proto::WriteError>,
) -> bool {
    exists|c: &mut quinn_proto::Connection, d: &[u8]|
        d@ == data && #[trigger] call_ensures(write_stream, (c, stream, d), written)
}

/// Whether writing to stream `stream` stopped rightly with `left` still
/// queued: either nothing is left, or the last write offered exactly what is
/// left and the stream accepted none of it.
pub open spec fn flush_stopped(stream: u64, left: Seq<u8>) -> bool {
    ||| left.len() == 0
    ||| exists|written: Result<usize, quinn_proto::WriteError>|
        #[trigger] stream_write(stream, left, written) && !(written matches Ok(n) && n > 0)
}

/// Takes the outcome of reading a stream of connection `id`: the bytes
/// read, when there are any, become one data event.
pub fn deliver_read(
    id: usize,
    read: Result<Vec<u8>, quinn_proto::ReadableError>,
    dispatch: &mut Vec<TransportEvent>,
)
    ensures
        final(dispatch)@ == read_delivered(old(dispatch)@, id, read),
{
    match read {
        Ok(data) => {
            if data.len() > 0 {
                dispatch.push(TransportEvent::Data { id, data });
            }
        },
        Err(_) => {},
    }
}

/// Whether `s` is what is left of `of` after a front part of it went out.
pub open spec fn is_suffix(s: Seq<u8>, of: Seq<u8>) -> bool {
    s.len() <= of.len() && s == of.subrange(of.len() - s.len(), of.len() as int)
}

/// A buffer is what is left of itself.
proof fn lemma_suffix_refl(s: Seq<u8>)
    ensures
        is_suffix(s, s),
{
    assert(s.subrange(0, s.len() as int) == s);
}

/// What is left of what was left of `c` is what is left of `c`.
proof fn lemma_suffix_trans(a: Seq<u8>, b: Seq<u8>, c: Seq<u8>)
    requires
        is_suffix(a, b),
        is_suffix(b, c),
    ensures
        is_suffix(a, c),
{
    assert(a == c.subrange(c.len() - a.len(), c.len() as int));
}

/// What a QUIC connection's stream state holds.
pub struct StreamView {
    /// The stream that carries the connection's data, once there is one.
    pub stream: Option<u64>,
    /// The bytes waiting to be written to the stream.
    pub send_buf: Seq<u8>,
    /// Whether the handshake completed.
    pub connected: bool,
    /// Whether a read shutdown was requested, and whether it was applied.
    pub read_requested: bool,
    pub read_applied: bool,
    /// Whether a write shutdown was requested, and whether it was applied.
    pub write_requested: bool,
    pub write_applied: bool,
}

/// The stream state of one QUIC connection.
pub struct QuicStream {
    stream_id: Option<u64>,
    send_buf: Vec<u8>,
    connected: bool,
    read_shutdown: StreamHalfShutdown,
    write_shutdown: StreamHalfShutdown,
}

impl View for QuicStream {
    type V = StreamView;

    closed spec fn view(&self) -> StreamView {
        StreamView {
            stream: self.stream_id,
            send_buf: self.send_buf@,
            connected: self.connected,
            read_requested: self.read_shutdown.spec_requested(),
            read_applied: self.read_shutdown.spec_applied(),
            write_requested: self.write_shutdown.spec_requested(),
            write_applied: self.write_shutdown.spec_applied(),
        }
    }
}

/// The invariant of a stream state: the stream, once there is one, is
/// usable, and a shutdown is applied only after it was requested.
pub open spec fn valid_stream_view(v: StreamView) -> bool {
    &&& v.stream matches Some(s) ==> usable_stream(s)
    &&& v.read_applied ==> v.read_requested
    &&& v.write_applied ==> v.write_requested
}

/// `v` with only its send buffer replaced by `buf`.
pub open spec fn with_send_buf(v: StreamView, buf: Seq<u8>) -> StreamView {
    StreamView { send_buf: buf, ..v }
}

/// How a stream state may change while the connection is driven: the
/// stream, once there is one, stays; the handshake flag and the shutdown
/// requests stay; a shutdown, once applied, stays applied, and is applied
/// only on a stream; and only a front part of the send buffer goes out.
pub open spec fn stream_progress(before: StreamView, after: StreamView) -> bool {
    &&& before.stream is Some ==> after.stream == before.stream
    &&& after.connected == before.connected
    &&& after.read_requested == before.read_requested
    &&& after.write_requested == before.write_requested
    &&& before.read_applied ==> after.read_applied
    &&& before.write_applied ==> after.write_applied
    &&& after.read_applied && !before.read_applied ==> after.stream is Some
    &&& after.write_applied && !before.write_applied ==> after.stream is Some
    &&& is_suffix(after.send_buf, before.send_buf)
}

/// A state has made no progress from itself.
proof fn lemma_progress_refl(v: StreamView)
    ensures
        stream_progress(v, v),
{
    lemma_suffix_refl(v.send_buf);
}

/// Progress after progress is progress.
proof fn lemma_progress_trans(a: StreamView, b: StreamView, c: StreamView)
    requires
        stream_progress(a, b),
        stream_progress(b, c),
    ensures
        stream_progress(a, c),
{
    lemma_suffix_trans(c.send_buf, b.send_buf, a.send_buf);
}

/// `v` with the shutdowns of `how` requested as well.
pub open spec fn with_requests(v: StreamView, how: ShutdownHow) -> StreamView {
    StreamView {
        read_requested: v.read_requested || how is Read || how is Both,
        write_requested: v.write_requested || how is Write || how is Both,
        ..v
    }
}

/// Whether `after` is the event list `before` with at most one data event
/// of connection `id` appended, carrying at least one byte; with none when
/// `allowed` is false.
pub open spec fn data_step(
    before: Seq<TransportEvent>,
    after: Seq<TransportEvent>,
    id: usize,
    allowed: bool,
) -> bool {
    ||| after == before
    ||| allowed && exists|data: Vec<u8>|
        data@.len() > 0 && after == #[trigger] before.push(TransportEvent::Data { id, data })
}

/// A stream event of a connection, as this library reads it.
pub enum StreamEventKind {
    /// The peer opened streams of direction `dir`.
    Opened { dir: StreamDir },
    /// Stream `stream` has data or an error waiting to be read.
    Readable { stream: u64 },
    /// Stream `stream` may accept writes again.
    Writable { stream: u64 },
    /// A finished stream was fully acknowledged.
    Finished,
    /// The peer asked to stop sending on a stream.
    Stopped,
    /// More streams of one direction may be opened.
    Available,
}

/// An application-facing event of a connection; `S` is how a stream event
/// is carried.
pub enum ConnectionEvent<S> {
    /// The handshake completed.
    Connected,
    /// The connection was lost or closed.
    ConnectionLost,
    /// A stream event.
    Stream(S),
    /// An event that this library does not act on.
    Other,
}

/// What a stream event does to the stream state `before`, leaving `after`,
/// and to the event list `d0`, leaving `d1`, on connection `id`.
///
/// The end of a stream ends the connection. A stream that the peer opened
/// becomes the connection's stream when it has none, and its data is read.
/// A readable or writable stream becomes the connection's stream when it
/// has none; then data is read, or queued bytes are written.
pub open spec fn stream_event_effect(
    before: StreamView,
    after: StreamView,
    id: usize,
    kind: StreamEventKind,
    d0: Seq<TransportEvent>,
    d1: Seq<TransportEvent>,
) -> bool {
    match kind {
        StreamEventKind::Finished | StreamEventKind::Stopped => {
            &&& after == before
            &&& d1 == d0.push(TransportEvent::Disconnected { id })
        },
        StreamEventKind::Available | StreamEventKind::Opened { dir: StreamDir::Uni } => {
            &&& after == before
            &&& d1 == d0
        },
        StreamEventKind::Opened { dir: StreamDir::Bi } => {
            &&& stream_progress(before, after)
            &&& data_step(d0, d1, id, !before.read_requested)
        },
        StreamEventKind::Readable { stream } => {
            &&& stream_progress(before, after)
            &&& before.stream is None && usable_stream(stream) ==> after.stream == Some(stream)
            &&& data_step(d0, d1, id, usable_stream(stream) && !before.read_requested)
            &&& usable_stream(stream) && !before.read_requested ==> exists|
                read: Result<Vec<u8>, quinn_proto::ReadableError>,
            | stream_read(stream, read) && d1 == #[trigger] read_delivered(d0, id, read)
        },
        StreamEventKind::Writable { stream } => {
            &&& stream_progress(before, after)
            &&& before.stream is None && usable_stream(stream) ==> after.stream == Some(stream)
            &&& d1 == d0
        },
    }
}

/// The event for a connection that was lost: a disconnect when it had been
/// established, a failed attempt otherwise.
pub open spec fn lost_event(id: usize, connected: bool) -> TransportEvent {
    if connected {
        TransportEvent::Disconnected { id }
    } else {
        TransportEvent::ConnectionFailed { id }
    }
}

/// What a connection event does to the stream state `before`, leaving
/// `after`, and to the event list `d0`, leaving `d1`, on connection `id`;
/// `alive` says whether the connection goes on.
///
/// The first completed handshake reports the connection as connected, and
/// the stream is then opened and written to; a lost connection is reported
/// as disconnected or as failed, by whether it had been connected.
pub open spec fn connection_event_effect(
    before: StreamView,
    after: StreamView,
    id: usize,
    event: ConnectionEvent<StreamEventKind>,
    d0: Seq<TransportEvent>,
    d1: Seq<TransportEvent>,
    alive: bool,
) -> bool {
    match event {
        ConnectionEvent::Connected => {
            &&& alive
            &&& stream_progress(StreamView { connected: true, ..before }, after)
            &&& d1 == if before.connected {
                d0
            } else {
                d0.push(TransportEvent::Connected { id })
            }
        },
        ConnectionEvent::ConnectionLost => {
            &&& !alive
            &&& after == before
            &&& d1 == d0.push(lost_event(id, before.connected))
        },
        ConnectionEvent::Stream(kind) => {
            &&& alive
            &&& stream_event_effect(before, after, id, kind, d0, d1)
        },
        ConnectionEvent::Other => {
            &&& alive
            &&& after == before
            &&& d1 == d0
        },
    }
}

/// Whether some connection event has the effect described by
/// `connection_event_effect`.
pub open spec fn some_event_effect(
    before: StreamView,
    after: StreamView,
    id: usize,
    d0: Seq<TransportEvent>,
    d1: Seq<TransportEvent>,
    alive: bool,
) -> bool {
    exists|event: ConnectionEvent<StreamEventKind>|
        #[trigger] connection_event_effect(before, after, id, event, d0, d1, alive)
}

/// Takes the next application-facing event of the connection.
///
/// Calls `Connection::poll`. Which event comes depends on the connection's
/// state, so nothing is stated about the result. The reason of a lost
/// connection is not kept.
#[verifier::external_body]
fn poll_event(conn: &mut quinn_proto::Connection) -> Option<ConnectionEvent<quinn_proto::StreamEvent>> {
    match conn.poll()? {
        quinn_proto::Event::Connected => Some(ConnectionEvent::Connected),
        quinn_proto::Event::ConnectionLost { .. } => Some(ConnectionEvent::ConnectionLost),
        quinn_proto::Event::Stream(event) => Some(ConnectionEvent::Stream(event)),
        _ => Some(ConnectionEvent::Other),
    }
}

/// Reads a quinn-proto stream event: its kind, with the stream's ID as a
/// number and the direction as a flag.
///
/// Tells the variants of `StreamEvent` apart, one arm each; the event is
/// opaque here, so nothing is stated about the result.
#[verifier::external_body]
fn stream_event_kind(event: quinn_proto::StreamEvent) -> StreamEventKind {
    match event {
        quinn_proto::StreamEvent::Opened { dir: quinn_proto::Dir::Bi } => StreamEventKind::Opened { dir: StreamDir::Bi },
        quinn_proto::StreamEvent::Opened { dir: quinn_proto::Dir::Uni } => StreamEventKind::Opened { dir: StreamDir::Uni },
        quinn_proto::StreamEvent::Readable { id } => StreamEventKind::Readable { stream: u64::from(id) },
        quinn_proto::StreamEvent::Writable { id } => StreamEventKind::Writable { stream: u64::from(id) },
        quinn_proto::StreamEvent::Finished { .. } => StreamEventKind::Finished,
        quinn_proto::StreamEvent::Stopped { .. } => StreamEventKind::Stopped,
        quinn_proto::StreamEvent::Available { .. } => StreamEventKind::Available,
    }
}

impl QuicStream {
    /// The state's invariant.
    pub open spec fn wf(&self) -> bool {
        valid_stream_view(self@)
    }

    /// The state of a new connection: no stream, nothing queued, not yet
    /// connected, no shutdown requested.
    pub fn new() -> (r: Self)
        ensures
            r.wf(),
            r@ == (StreamView {
                stream: None,
                send_buf: Seq::empty(),
                connected: false,
                read_requested: false,
                read_applied: false,
                write_requested: false,
                write_applied: false,
            }),
    {
        Self {
            stream_id: None,
            send_buf: Vec::new(),
            connected: false,
            read_shutdown: StreamHalfShutdown::new(),
            write_shutdown: StreamHalfShutdown::new(),
        }
    }

    /// The stream that carries the connection's data, once there is one.
    pub fn stream(&self) -> (r: Option<u64>)
        ensures
            r == self@.stream,
    {
        self.stream_id
    }

    /// The bytes waiting to be written to the stream.
    pub fn queued(&self) -> (r: &[u8])
        ensures
            r@ == self@.send_buf,
    {
        self.send_buf.as_slice()
    }

    /// Takes the outcome of writing the send buffer to the stream: the bytes
    /// that went out leave the front of the buffer. Returns whether writing
    /// goes on, which it does only after some bytes went out.
    pub fn take_written(&mut self, written: Result<usize, quinn_proto::WriteError>) -> (more: bool)
        requires
            old(self).wf(),
            written matches Ok(n) ==> n <= old(self)@.send_buf.len(),
        ensures
            final(self).wf(),
            more == (written matches Ok(n) && n > 0),
            final(self)@ == with_send_buf(
                old(self)@,
                match written {
                    Ok(n) => old(self)@.send_buf.subrange(n as int, old(self)@.send_buf.len() as int),
                    Err(_) => old(self)@.send_buf,
                },
            ),
            is_suffix(final(self)@.send_buf, old(self)@.send_buf),
    {
        proof {
            lemma_suffix_refl(self.send_buf@);
        }
        match written {
            Ok(n) => {
                let ghost before = self.send_buf@;
                let rest = self.send_buf.split_off(n);
                self.send_buf = rest;
                assert(self.send_buf@ == before.subrange(n as int, before.len() as int));
                assert(self@ == with_send_buf(old(self)@, self.send_buf@));
                n > 0
            },
            Err(_) => false,
        }
    }

    /// Writes queued bytes to the stream until nothing is left or the
    /// connection accepts no more.
    ///
    /// The bytes that went out are a front part of the send buffer; nothing
    /// else changes. Without a stream nothing happens.
    fn flush(&mut self, conn: &mut quinn_proto::Connection)
        requires
            old(self).wf(),
        ensures
            final(self).wf(),
            final(self)@ == with_send_buf(old(self)@, final(self)@.send_buf),
            is_suffix(final(self)@.send_buf, old(self)@.send_buf),
            old(self)@.stream is None ==> final(self)@ == old(self)@,
            old(self)@.stream matches Some(s) ==> flush_stopped(s, final(self)@.send_buf),
    {
        proof {
            lemma_suffix_refl(self.send_buf@);
        }
        let stream = match self.stream_id {
            Some(s) => s,
            None => {
                return ;
            },
        };
        while self.send_buf.len() > 0
            invariant
                self.wf(),
                self.stream_id == Some(stream),
                self@ == with_send_buf(old(self)@, self@.send_buf),
                is_suffix(self@.send_buf, old(self)@.send_buf),
            decreases self.send_buf@.len(),
        {
            let write = write_stream;
            let written = write(conn, stream, self.send_buf.as_slice());
            let ghost before = self@;
            assert(stream_write(stream, before.send_buf, written));
            if !self.take_written(written) {
                proof {
                    lemma_suffix_trans(self@.send_buf, before.send_buf, old(self)@.send_buf);
                    assert(self@.send_buf == before.send_buf.subrange(0, before.send_buf.len() as int));
                    assert(self@.send_buf =~= before.send_buf);
                }
                return ;
            }
            proof {
                lemma_suffix_trans(self@.send_buf, before.send_buf, old(self)@.send_buf);
            }
        }
    }

    /// Finishes the send side of the stream after writing what it can of
    /// the send buffer; when the stream accepts, the write shutdown is
    /// applied.
    fn finish_send(&mut self, conn: &mut quinn_proto::Connection)
        requires
            old(self).wf(),
            old(self)@.write_requested,
        ensures
            final(self).wf(),
            stream_progress(old(self)@, final(self)@),
            final(self)@.stream == old(self)@.stream,
            final(self)@.read_applied == old(self)@.read_applied,
    {
        let stream = match self.stream_id {
            Some(s) => s,
            None => {
                proof {
                    lemma_progress_refl(self@);
                }
                return ;
            },
        };
        self.flush(conn);
        if finish_stream(conn, stream).is_ok() {
            self.write_shutdown.mark_applied();
        }
    }

    /// Stops the receive side of the stream; when the stream accepts, the
    /// read shutdown is applied.
    fn stop_recv(&mut self, conn: &mut quinn_proto::Connection)
        requires
            old(self).wf(),
            old(self)@.read_requested,
        ensures
            final(self).wf(),
            stream_progress(old(self)@, final(self)@),
            final(self)@.stream == old(self)@.stream,
            final(self)@.send_buf == old(self)@.send_buf,
            final(self)@.write_applied == old(self)@.write_applied,
    {
        proof {
            lemma_progress_refl(self@);
        }
        let stream = match self.stream_id {
            Some(s) => s,
            None => {
                return ;
            },
        };
        if stop_stream(conn, stream, 0).is_ok() {
            self.read_shutdown.mark_applied();
        }
    }

    /// Applies the shutdowns that were requested and not yet applied, once
    /// there is a stream: the write side first, then the read side.
    fn apply_shutdowns(&mut self, conn: &mut quinn_proto::Connection)
        requires
            old(self).wf(),
        ensures
            final(self).wf(),
            stream_progress(old(self)@, final(self)@),
            final(self)@.stream == old(self)@.stream,
            old(self)@.stream is None ==> final(self)@ == old(self)@,
    {
        proof {
            lemma_progress_refl(self@);
        }
        if self.stream_id.is_none() {
            return ;
        }
        let ghost start = self@;
        if self.write_shutdown.pending() {
            self.finish_send(conn);
        }
        let ghost middle = self@;
        proof {
            lemma_progress_refl(middle);
        }
        if self.read_shutdown.pending() {
            self.stop_recv(conn);
        }
        proof {
            lemma_progress_trans(start, middle, self@);
        }
    }

    /// Makes sure there is a stream, opening one when there is none, then
    /// writes what it can of the send buffer and applies requested
    /// shutdowns.
    fn ensure_open(&mut self, conn: &mut quinn_proto::Connection)
        requires
            old(self).wf(),
        ensures
            final(self).wf(),
            stream_progress(old(self)@, final(self)@),
    {
        let ghost start = self@;
        if self.stream_id.is_none() {
            match open_bi_stream(conn) {
                Some(stream) => {
                    if is_usable_stream(stream) {
                        self.stream_id = Some(stream);
                    }
                },
                None => {},
            }
        }
        proof {
            lemma_progress_refl(start);
            lemma_suffix_refl(start.send_buf);
        }
        let ghost opened = self@;
        self.flush(conn);
        let ghost flushed = self@;
        self.apply_shutdowns(conn);
        proof {
            lemma_progress_trans(opened, flushed, self@);
            lemma_progress_trans(start, opened, self@);
        }
    }

    /// Queues `data` for sending, unless a write shutdown was requested, in
    /// which case it is dropped; on an established connection the stream is
    /// then opened if needed and written to.
    ///
    /// Returns whether the data was queued.
    pub fn send(&mut self, conn: &mut quinn_proto::Connection, data: Vec<u8>) -> (queued: bool)
        requires
            old(self).wf(),
        ensures
            final(self).wf(),
            queued == !old(self)@.write_requested,
            !queued ==> final(self)@ == old(self)@,
            queued && !old(self)@.connected ==> final(self)@ == with_send_buf(
                old(self)@,
                old(self)@.send_buf + data@,
            ),
            queued && old(self)@.connected ==> stream_progress(
                with_send_buf(old(self)@, old(self)@.send_buf + data@),
                final(self)@,
            ),
    {
        if self.write_shutdown.is_requested() {
            return false;
        }
        let mut data = data;
        self.send_buf.append(&mut data);
        if self.connected {
            self.ensure_open(conn);
        }
        true
    }

    /// Records a shutdown request for the directions of `how`.
    ///
    /// A full shutdown closes the whole connection, which the caller does:
    /// the result says so. A half shutdown is applied to the stream, if
    /// there is one.
    pub fn request_shutdown(&mut self, conn: &mut quinn_proto::Connection, how: ShutdownHow) -> (close: bool)
        requires
            old(self).wf(),
        ensures
            final(self).wf(),
            close == (how is Both),
            close ==> final(self)@ == with_requests(old(self)@, how),
            !close ==> stream_progress(with_requests(old(self)@, how), final(self)@),
            !close ==> final(self)@.stream == old(self)@.stream,
    {
        let (read, write) = shutdown_directions(how);
        if read {
            self.read_shutdown.request();
        }
        if write {
            self.write_shutdown.request();
        }
        assert(self@ == with_requests(old(self)@, how));
        match how {
            ShutdownHow::Both => true,
            _ => {
                self.apply_shutdowns(conn);
                false
            },
        }
    }

    /// Reads what stream `stream` holds and hands it on as one data event
    /// of connection `id`, unless a read shutdown was requested, in which
    /// case incoming data is dropped.
    fn drain(&self, id: usize, conn: &mut quinn_proto::Connection, stream: u64, dispatch: &mut Vec<TransportEvent>)
        requires
            usable_stream(stream),
        ensures
            data_step(old(dispatch)@, final(dispatch)@, id, !self@.read_requested),
            self@.read_requested ==> final(dispatch)@ == old(dispatch)@,
            !self@.read_requested ==> exists|read: Result<Vec<u8>, quinn_proto::ReadableError>|
                stream_read(stream, read) && final(dispatch)@ == #[trigger] read_delivered(
                    old(dispatch)@,
                    id,
                    read,
                ),
    {
        if self.read_shutdown.is_requested() {
            return ;
        }
        let read_stream = read_available;
        let read = read_stream(conn, stream);
        assert(stream_read(stream, read));
        let ghost got = read;
        deliver_read(id, read, dispatch);
        assert(dispatch@ == read_delivered(old(dispatch)@, id, got));
    }

    /// Handles a stream event of connection `id`, appending the transport
    /// events that it produces.
    pub fn on_stream_event(
        &mut self,
        id: usize,
        conn: &mut quinn_proto::Connection,
        kind: StreamEventKind,
        dispatch: &mut Vec<TransportEvent>,
    )
        requires
            old(self).wf(),
        ensures
            final(self).wf(),
            stream_event_effect(old(self)@, final(self)@, id, kind, old(dispatch)@, final(dispatch)@),
    {
        let ghost start = self@;
        proof {
            lemma_progress_refl(start);
        }
        match kind {
            StreamEventKind::Opened { dir } => {
                match accept_stream(conn, dir) {
                    Some(accepted) => {
                        if dir == StreamDir::Bi && is_usable_stream(accepted) {
                            if self.stream_id.is_none() {
                                self.stream_id = Some(accepted);
                                let ghost adopted = self@;
                                proof {
                                    lemma_suffix_refl(start.send_buf);
                                }
                                self.ensure_open(conn);
                                proof {
                                    lemma_progress_trans(start, adopted, self@);
                                }
                            }
                            self.drain(id, conn, accepted, dispatch);
                        }
                    },
                    None => {},
                }
            },
            StreamEventKind::Readable { stream } => {
                if self.stream_id.is_none() && is_usable_stream(stream) {
                    self.stream_id = Some(stream);
                    let ghost adopted = self@;
                    proof {
                        lemma_suffix_refl(start.send_buf);
                    }
                    self.apply_shutdowns(conn);
                    proof {
                        lemma_progress_trans(start, adopted, self@);
                    }
                }
                if is_usable_stream(stream) {
                    self.drain(id, conn, stream, dispatch);
                }
            },
            StreamEventKind::Writable { stream } => {
                if self.stream_id.is_none() && is_usable_stream(stream) {
                    self.stream_id = Some(stream);
                    let ghost adopted = self@;
                    proof {
                        lemma_suffix_refl(start.send_buf);
                    }
                    self.apply_shutdowns(conn);
                    proof {
                        lemma_progress_trans(start, adopted, self@);
                    }
                }
                let ghost applied = self@;
                self.flush(conn);
                proof {
                    lemma_progress_trans(start, applied, self@);
                }
            },
            StreamEventKind::Finished | StreamEventKind::Stopped => {
                dispatch.push(TransportEvent::Disconnected { id });
            },
            StreamEventKind::Available => {},
        }
    }

    /// Handles an application-facing event of connection `id`, appending
    /// the transport events that it produces. Returns whether the
    /// connection goes on.
    pub fn on_connection_event(
        &mut self,
        id: usize,
        conn: &mut quinn_proto::Connection,
        event: ConnectionEvent<StreamEventKind>,
        dispatch: &mut Vec<TransportEvent>,
    ) -> (alive: bool)
        requires
            old(self).wf(),
        ensures
            final(self).wf(),
            connection_event_effect(old(self)@, final(self)@, id, event, old(dispatch)@, final(dispatch)@, alive),
    {
        match event {
            ConnectionEvent::Connected => {
                if !self.connected {
                    self.connected = true;
                    dispatch.push(TransportEvent::Connected { id });
                }
                self.ensure_open(conn);
                true
            },
            ConnectionEvent::ConnectionLost => {
                dispatch.push(lost_connection_event(id, self.connected));
                false
            },
            ConnectionEvent::Stream(kind) => {
                self.on_stream_event(id, conn, kind, dispatch);
                true
            },
            ConnectionEvent::Other => true,
        }
    }

    /// Takes the next application-facing event of connection `id` and
    /// handles it. Returns `None` when no event was waiting, and otherwise
    /// whether the connection goes on.
    pub fn next_connection_event(
        &mut self,
        id: usize,
        conn: &mut quinn_proto::Connection,
        dispatch: &mut Vec<TransportEvent>,
    ) -> (step: Option<bool>)
        requires
            old(self).wf(),
        ensures
            final(self).wf(),
            step is None ==> final(self)@ == old(self)@ && final(dispatch)@ == old(dispatch)@,
            step matches Some(alive) ==> some_event_effect(
                old(self)@,
                final(self)@,
                id,
                old(dispatch)@,
                final(dispatch)@,
                alive,
            ),
    {
        let event = match poll_event(conn) {
            None => {
                return None;
            },
            Some(ConnectionEvent::Connected) => ConnectionEvent::Connected,
            Some(ConnectionEvent::ConnectionLost) => ConnectionEvent::ConnectionLost,
            Some(ConnectionEvent::Stream(e)) => ConnectionEvent::Stream(stream_event_kind(e)),
            Some(ConnectionEvent::Other) => ConnectionEvent::Other,
        };
        let ghost seen = event;
        let alive = self.on_connection_event(id, conn, event, dispatch);
        assert(connection_event_effect(old(self)@, self@, id, seen, old(dispatch)@, dispatch@, alive));
        Some(alive)
    }
}

/// Received bytes reach the application: when reading a stream gives
/// bytes and no read shutdown was requested, exactly one data event of the
/// connection, holding exactly those bytes, is added; every data event that
/// is added holds bytes that a read of that stream gave; after a read
/// shutdown request nothing is added.
pub proof fn law_read_bytes_delivered(
    d0: Seq<TransportEvent>,
    d1: Seq<TransportEvent>,
    id: usize,
    stream: u64,
    read_requested: bool,
)
    requires
        read_requested ==> d1 == d0,
        !read_requested ==> exists|read: Result<Vec<u8>, quinn_proto::ReadableError>|
            stream_read(stream, read) && d1 == #[trigger] read_delivered(d0, id, read),
    ensures
        read_requested ==> d1 == d0,
        d1 == d0 || exists|data: Vec<u8>|
            {
                &&& !read_requested
                &&& data@.len() > 0
                &&& stream_read(stream, Ok(data))
                &&& d1 == #[trigger] d0.push(TransportEvent::Data { id, data })
            },
        forall|read: Result<Vec<u8>, quinn_proto::ReadableError>|
            (!read_requested && d1 == #[trigger] read_delivered(d0, id, read) && read is Ok
                && read->Ok_0@.len() > 0) ==> (d1.len() == d0.len() + 1 && d1.last() == (
            TransportEvent::Data { id, data: read->Ok_0 })),
{
    if !read_requested {
        let read = choose|read: Result<Vec<u8>, quinn_proto::ReadableError>|
            stream_read(stream, read) && d1 == #[trigger] read_delivered(d0, id, read);
        if let Ok(data) = read {
            if data@.len() > 0 {
                assert(d1 == d0.push(TransportEvent::Data { id, data }));
            }
        }
    }
}

/// Queued bytes are not left behind: writing stops with bytes still queued
/// only when the stream, offered exactly those bytes, accepted none of them.
pub proof fn law_flush_leaves_only_refused_bytes(stream: u64, left: Seq<u8>)
    requires
        flush_stopped(stream, left),
        left.len() > 0,
    ensures
        exists|written: Result<usize, quinn_proto::WriteError>|
            #[trigger] stream_write(stream, left, written) && (written is Err || written
                == Ok::<usize, quinn_proto::WriteError>(0)),
{
    let written = choose|written: Result<usize, quinn_proto::WriteError>|
        #[trigger] stream_write(stream, left, written) && !(written matches Ok(n) && n > 0);
    assert(written is Err || written == Ok::<usize, quinn_proto::WriteError>(0));
}

} // verus!
