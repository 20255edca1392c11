//! The messenger layer's decisions: turning a connection's raw bytes into
//! typed messages.
//!
//! Each connection has a receive buffer. Incoming bytes are appended to it
//! and every complete frame at its front becomes a message event; the bytes
//! of an incomplete frame wait for more data. A malformed frame closes the
//! connection.
use crate::context::Context;
use crate::bytes::{lemma_le_u32_roundtrip, read_le_u32};
use crate::context::utf8_bytes;
use crate::frame::{
    decode_frame, deserialize_message, encode_frame, encode_payload, law_frame_roundtrip, FrameDecode,
};
use crate::registry::{BodyDeserializer, CodecPair, MessageRegistry};
use crate::transport::TransportEvent;
use std::collections::HashMap;
use vstd::prelude::*;
use vstd::std_specs::hash::group_hash_axioms;

verus! {

broadcast use group_hash_axioms;

/// Events produced by a messenger's `fetch_events()`.
///
/// These events represent the lifecycle of connections and messages in the
/// messenger.
#[derive(Debug)]
pub enum MessengerEvent<C, M: ?Sized> {
    /// The messenger has no listeners or connections.
    Inactive,
    /// Connection established.
    Connected { id: usize },
    /// Connection establishment failed.
    ConnectionFailed { id: usize },
    /// Connection closed. Clean up state associated with this `id`.
    Disconnected { id: usize },
    /// Received and deserialized message.
    Message { id: usize, msg: Box<M>, ctx: C },
}

/// Where a scan of a byte stream for frames stopped.
pub enum ScanEnd {
    /// The rest of the stream is an incomplete frame.
    NeedMore,
    /// The rest of the stream starts with a frame that is corrupt or whose
    /// message ID is not registered.
    Invalid,
}

/// The frames at the front of a byte stream: each frame's context, message
/// ID and body, the number of bytes they take, and why the scan stopped.
pub struct FrameScan<V> {
    pub frames: Seq<(V, Seq<char>, Seq<u8>)>,
    pub consumed: nat,
    pub end: ScanEnd,
}

/// A frame never claims more bytes than the buffer holds, and takes at least
/// its four length bytes.
pub proof fn lemma_frame_size<C: Context>(buf: Seq<u8>)
    ensures
        decode_frame::<C>(buf) matches FrameDecode::Frame { size, .. } ==> 4 <= size <= buf.len(),
{
}

/// Reads frames off the front of `stream` as long as they are complete,
/// well-formed and registered in `registered`.
pub open spec fn scan_frames<C: Context, S, D>(
    stream: Seq<u8>,
    registered: Map<Seq<char>, CodecPair<S, D>>,
) -> FrameScan<C::V>
    decreases stream.len(),
{
    match decode_frame::<C>(stream) {
        FrameDecode::Incomplete => FrameScan { frames: Seq::empty(), consumed: 0, end: ScanEnd::NeedMore },
        FrameDecode::Corrupt => FrameScan { frames: Seq::empty(), consumed: 0, end: ScanEnd::Invalid },
        FrameDecode::Frame { ctx, msg_id, body, size } => if !registered.contains_key(msg_id) {
            FrameScan { frames: Seq::empty(), consumed: 0, end: ScanEnd::Invalid }
        } else {
            proof {
                lemma_frame_size::<C>(stream);
            }
            let rest = scan_frames::<C, S, D>(stream.subrange(size as int, stream.len() as int), registered);
            FrameScan {
                frames: seq![(ctx, msg_id, body)] + rest.frames,
                consumed: size + rest.consumed,
                end: rest.end,
            }
        },
    }
}

/// How the messenger's event loop goes on after one transport event.
pub enum EventOutcome {
    /// Go on with the next event.
    Continue,
    /// Close the given connection: its data could not be read as messages.
    CloseConnection { id: usize },
    /// The transport is inactive; skip the remaining events of this batch.
    Inactive,
}

/// Per-connection receive buffers for frames that arrive in pieces.
pub struct ReceiveBuffers {
    buffers: HashMap<usize, Vec<u8>>,
}

impl View for ReceiveBuffers {
    /// The bytes waiting in each connection's buffer.
    type V = Map<usize, Seq<u8>>;

    closed spec fn view(&self) -> Map<usize, Seq<u8>> {
        Map::new(|id: usize| self.buffers@.contains_key(id), |id: usize| self.buffers@[id]@)
    }
}

/// The bytes waiting for connection `id`: its buffer, or nothing.
pub open spec fn pending_bytes(buffers: Map<usize, Seq<u8>>, id: usize) -> Seq<u8> {
    if buffers.contains_key(id) {
        buffers[id]
    } else {
        Seq::empty()
    }
}

/// Whether `event` is the message event of connection `id` whose context has
/// view `ctx`.
pub open spec fn is_message_event<C: View, M: ?Sized>(
    event: MessengerEvent<C, M>,
    id: usize,
    ctx: C::V,
) -> bool {
    event matches MessengerEvent::Message { id: eid, ctx: c, .. } && eid == id && c@ == ctx
}

/// What receiving `data` on connection `id` does: the connection's pending
/// bytes followed by `data` form the stream; the first `k` frames of the
/// stream become message events, in order, appended to the events; either
/// every complete frame was delivered and the rest of the stream stays
/// buffered (`failed` is false), or a frame could not be read and the
/// connection's buffer is dropped (`failed` is true).
pub open spec fn receive_effect<C: Context, M: ?Sized, S, D>(
    before: Map<usize, Seq<u8>>,
    after: Map<usize, Seq<u8>>,
    id: usize,
    data: Seq<u8>,
    registered: Map<Seq<char>, CodecPair<S, D>>,
    old_events: Seq<MessengerEvent<C, M>>,
    new_events: Seq<MessengerEvent<C, M>>,
    failed: bool,
) -> bool {
    let stream = pending_bytes(before, id) + data;
    let scan = scan_frames::<C, S, D>(stream, registered);
    let k = new_events.len() - old_events.len();
    &&& new_events.len() >= old_events.len()
    &&& new_events.subrange(0, old_events.len() as int) == old_events
    &&& k <= scan.frames.len()
    &&& forall|i: int|
        0 <= i < k ==> is_message_event(
            #[trigger] new_events[old_events.len() + i],
            id,
            scan.frames[i].0,
        )
    &&& !failed ==> {
        &&& k == scan.frames.len()
        &&& scan.end is NeedMore
        &&& after == before.insert(id, stream.subrange(scan.consumed as int, stream.len() as int))
    }
    &&& failed ==> {
        &&& k < scan.frames.len() || scan.end is Invalid
        &&& after == before.remove(id)
    }
}

impl ReceiveBuffers {
    /// Creates empty receive buffers.
    pub fn new() -> (r: Self)
        ensures
            r@ == Map::<usize, Seq<u8>>::empty(),
    {
        let r = Self { buffers: HashMap::new() };
        assert(r@ =~= Map::<usize, Seq<u8>>::empty());
        r
    }

    /// Drops the buffer of connection `id`.
    pub fn remove(&mut self, id: usize)
        ensures
            final(self)@ == old(self)@.remove(id),
    {
        self.buffers.remove(&id);
        assert(self@ =~= old(self)@.remove(id));
    }

    /// Drops every buffer.
    pub fn clear(&mut self)
        ensures
            final(self)@ == Map::<usize, Seq<u8>>::empty(),
    {
        self.buffers.clear();
        assert(self@ =~= Map::<usize, Seq<u8>>::empty());
    }

    /// Appends `data` to the buffer of connection `id` and turns every
    /// complete frame at its front into a message event, appended to
    /// `events` in order.
    ///
    /// Returns `false` when it stopped at an incomplete frame; its bytes stay
    /// in the buffer. Returns `true` when a frame could not be read (corrupt,
    /// unregistered, or rejected by its deserializer); the connection's
    /// buffer is then dropped and the connection is to be closed.
    pub fn receive<C: Context, M: ?Sized, S, D: BodyDeserializer<M>>(
        &mut self,
        id: usize,
        data: Vec<u8>,
        registry: &MessageRegistry<S, D>,
        events: &mut Vec<MessengerEvent<C, M>>,
    ) -> (failed: bool)
        requires
            registry.wf(),
        ensures
            receive_effect::<C, M, S, D>(
                old(self)@,
                final(self)@,
                id,
                data@,
                registry@,
                old(events)@,
                final(events)@,
                failed,
            ),
    {
        let ghost old_events = events@;
        let mut recv_buf = match self.buffers.remove(&id) {
            Some(buf) => buf,
            None => Vec::new(),
        };
        let ghost stream = pending_bytes(old(self)@, id) + data@;
        if recv_buf.len() == 0 {
            recv_buf = data;
        } else {
            let mut data = data;
            recv_buf.append(&mut data);
        }
        assert(recv_buf@ == stream);
        let ghost scan = scan_frames::<C, S, D>(stream, registry@);
        let mut recv_pos: usize = 0;
        let mut failed = false;
        let ghost mut done: Seq<(C::V, Seq<char>, Seq<u8>)> = Seq::empty();
        assert(stream.subrange(0, stream.len() as int) =~= stream);
        assert(done + scan.frames =~= scan.frames);
        assert(events@.subrange(0, old_events.len() as int) =~= old_events);
        while recv_pos < recv_buf.len()
            invariant_except_break
                !failed,
            invariant
                recv_buf@ == stream,
                scan == scan_frames::<C, S, D>(stream, registry@),
                registry.wf(),
                recv_pos <= stream.len(),
                ({
                    let tail = scan_frames::<C, S, D>(
                        stream.subrange(recv_pos as int, stream.len() as int),
                        registry@,
                    );
                    &&& scan.frames == done + tail.frames
                    &&& scan.consumed == recv_pos + tail.consumed
                    &&& scan.end == tail.end
                }),
                events@.len() == old_events.len() + done.len(),
                events@.subrange(0, old_events.len() as int) == old_events,
                forall|i: int|
                    0 <= i < done.len() ==> is_message_event(
                        #[trigger] events@[old_events.len() + i],
                        id,
                        done[i].0,
                    ),
            ensures
                recv_pos <= stream.len(),
                events@.subrange(0, old_events.len() as int) == old_events,
                events@.len() == old_events.len() + done.len(),
                forall|i: int|
                    0 <= i < done.len() ==> is_message_event(
                        #[trigger] events@[old_events.len() + i],
                        id,
                        done[i].0,
                    ),
                done.len() <= scan.frames.len(),
                !failed ==> done == scan.frames && scan.end is NeedMore && scan.consumed == recv_pos,
                failed ==> done.len() < scan.frames.len() || scan.end is Invalid,
            decreases stream.len() - recv_pos,
        {
            let ghost tail_bytes = stream.subrange(recv_pos as int, stream.len() as int);
            let ghost tail = scan_frames::<C, S, D>(tail_bytes, registry@);
            let result = deserialize_message::<C, M, S, D>(&recv_buf.as_slice()[recv_pos..recv_buf.len()], registry);
            proof {
                lemma_frame_size::<C>(tail_bytes);
            }
            match result {
                Ok(Some((msg, ctx, bytes_read))) => {
                    let ghost frame = (ctx@, tail.frames[0].1, tail.frames[0].2);
                    let ghost next = stream.subrange(recv_pos + bytes_read, stream.len() as int);
                    assert(tail_bytes.subrange(bytes_read as int, tail_bytes.len() as int) == next);
                    let ghost before = events@;
                    events.push(MessengerEvent::Message { id, msg, ctx });
                    proof {
                        assert(tail.frames == seq![frame] + scan_frames::<C, S, D>(next, registry@).frames);
                        done = done.push(frame);
                        assert(done.last() == frame);
                        assert(events@.subrange(0, old_events.len() as int) == before.subrange(0, old_events.len() as int));
                    }
                    recv_pos = recv_pos + bytes_read;
                    proof {
                        assert forall|i: int| 0 <= i < done.len() implies is_message_event(
                            #[trigger] events@[old_events.len() + i],
                            id,
                            done[i].0,
                        ) by {
                            if i < done.len() - 1 {
                                assert(events@[old_events.len() + i] == before[old_events.len() + i]);
                            }
                        }
                    }
                },
                Ok(None) => {
                    break;
                },
                Err(_) => {
                    failed = true;
                    break;
                },
            }
        }
        proof {
            let tail_bytes = stream.subrange(recv_pos as int, stream.len() as int);
            if recv_pos == stream.len() {
                assert(tail_bytes.len() == 0);
            }
        }
        if !failed {
            let rest = recv_buf.split_off(recv_pos);
            self.buffers.insert(id, rest);
        }
        proof {
            assert(self@ =~= if failed {
                old(self)@.remove(id)
            } else {
                old(self)@.insert(id, stream.subrange(scan.consumed as int, stream.len() as int))
            });
        }
        failed
    }

    /// Handles one transport event: appends the messenger events it
    /// produces and updates the receive buffers.
    ///
    /// Lifecycle events are passed on; the end of a connection drops its
    /// buffer; `Inactive` drops every buffer and ends the batch; data is
    /// received as by `receive`, and the connection is to be closed when its
    /// data could not be read.
    pub fn on_transport_event<C: Context, M: ?Sized, S, D: BodyDeserializer<M>>(
        &mut self,
        event: TransportEvent,
        registry: &MessageRegistry<S, D>,
        events: &mut Vec<MessengerEvent<C, M>>,
    ) -> (outcome: EventOutcome)
        requires
            registry.wf(),
        ensures
            match event {
                TransportEvent::Inactive => {
                    &&& final(self)@ == Map::<usize, Seq<u8>>::empty()
                    &&& final(events)@ == old(events)@.push(MessengerEvent::Inactive)
                    &&& outcome is Inactive
                },
                TransportEvent::Connected { id } => {
                    &&& final(self)@ == old(self)@
                    &&& final(events)@ == old(events)@.push(MessengerEvent::Connected { id })
                    &&& outcome is Continue
                },
                TransportEvent::ConnectionFailed { id } => {
                    &&& final(self)@ == old(self)@.remove(id)
                    &&& final(events)@ == old(events)@.push(MessengerEvent::ConnectionFailed { id })
                    &&& outcome is Continue
                },
                TransportEvent::Disconnected { id } => {
                    &&& final(self)@ == old(self)@.remove(id)
                    &&& final(events)@ == old(events)@.push(MessengerEvent::Disconnected { id })
                    &&& outcome is Continue
                },
                TransportEvent::Data { id, data } => exists|failed: bool|
                    {
                        &&& receive_effect::<C, M, S, D>(
                            old(self)@,
                            final(self)@,
                            id,
                            data@,
                            registry@,
                            old(events)@,
                            final(events)@,
                            failed,
                        )
                        &&& outcome == if failed {
                            EventOutcome::CloseConnection { id }
                        } else {
                            EventOutcome::Continue
                        }
                    },
            },
    {
        match event {
            TransportEvent::Inactive => {
                self.clear();
                events.push(MessengerEvent::Inactive);
                EventOutcome::Inactive
            },
            TransportEvent::Connected { id } => {
                events.push(MessengerEvent::Connected { id });
                EventOutcome::Continue
            },
            TransportEvent::ConnectionFailed { id } => {
                self.remove(id);
                events.push(MessengerEvent::ConnectionFailed { id });
                EventOutcome::Continue
            },
            TransportEvent::Disconnected { id } => {
                self.remove(id);
                events.push(MessengerEvent::Disconnected { id });
                EventOutcome::Continue
            },
            TransportEvent::Data { id, data } => {
                if self.receive(id, data, registry, events) {
                    EventOutcome::CloseConnection { id }
                } else {
                    EventOutcome::Continue
                }
            },
        }
    }
}

/// A scan never consumes more bytes than the stream holds.
pub proof fn lemma_scan_within<C: Context, S, D>(
    stream: Seq<u8>,
    registered: Map<Seq<char>, CodecPair<S, D>>,
)
    ensures
        scan_frames::<C, S, D>(stream, registered).consumed <= stream.len(),
    decreases stream.len(),
{
    if let FrameDecode::Frame { size, msg_id, .. } = decode_frame::<C>(stream) {
        lemma_frame_size::<C>(stream);
        if registered.contains_key(msg_id) {
            lemma_scan_within::<C, S, D>(
                stream.subrange(size as int, stream.len() as int),
                registered,
            );
        }
    }
}

/// A frame, or a corrupt frame, is decided by the bytes it spans: bytes
/// appended after it change nothing.
pub proof fn lemma_decode_frame_extend<C: Context>(a: Seq<u8>, b: Seq<u8>)
    requires
        !(decode_frame::<C>(a) is Incomplete),
    ensures
        decode_frame::<C>(a + b) == decode_frame::<C>(a),
{
    let ab = a + b;
    assert(ab.subrange(0, 4) == a.subrange(0, 4));
    let size = read_le_u32(a.subrange(0, 4)) as int + 4;
    assert(ab.subrange(4, size) == a.subrange(4, size));
}

/// Scanning a stream that is cut after an incomplete frame, and then the
/// rest of the stream together with the unread bytes, finds the same frames
/// as scanning the whole stream at once.
pub proof fn lemma_scan_split<C: Context, S, D>(
    a: Seq<u8>,
    b: Seq<u8>,
    registered: Map<Seq<char>, CodecPair<S, D>>,
)
    requires
        scan_frames::<C, S, D>(a, registered).end is NeedMore,
    ensures
        ({
            let first = scan_frames::<C, S, D>(a, registered);
            let second = scan_frames::<C, S, D>(
                a.subrange(first.consumed as int, a.len() as int) + b,
                registered,
            );
            let whole = scan_frames::<C, S, D>(a + b, registered);
            &&& first.consumed <= a.len()
            &&& whole.frames == first.frames + second.frames
            &&& whole.consumed == first.consumed + second.consumed
            &&& whole.end == second.end
        }),
    decreases a.len(),
{
    let first = scan_frames::<C, S, D>(a, registered);
    match decode_frame::<C>(a) {
        FrameDecode::Incomplete => {
            assert(a.subrange(0, a.len() as int) == a);
            assert(first.frames + scan_frames::<C, S, D>(a + b, registered).frames
                == scan_frames::<C, S, D>(a + b, registered).frames);
        },
        FrameDecode::Corrupt => {},
        FrameDecode::Frame { ctx, msg_id, body, size } => {
            lemma_frame_size::<C>(a);
            lemma_decode_frame_extend::<C>(a, b);
            lemma_frame_size::<C>(a + b);
            let a2 = a.subrange(size as int, a.len() as int);
            assert((a + b).subrange(size as int, (a + b).len() as int) == a2 + b);
            lemma_scan_split::<C, S, D>(a2, b, registered);
            let rest = scan_frames::<C, S, D>(a2, registered);
            assert(a.subrange(first.consumed as int, a.len() as int) == a2.subrange(
                rest.consumed as int,
                a2.len() as int,
            ));
            let second = scan_frames::<C, S, D>(
                a2.subrange(rest.consumed as int, a2.len() as int) + b,
                registered,
            );
            assert(first.frames + second.frames == seq![(ctx, msg_id, body)] + (rest.frames
                + second.frames));
        },
    }
}

/// Data may arrive in any pieces: receiving `a` and then `b` on a connection,
/// when neither receive fails, delivers the same messages and leaves the
/// same buffered bytes as receiving `a` followed by `b` at once.
pub proof fn law_receive_in_pieces<C: Context, M: ?Sized, S, D>(
    before: Map<usize, Seq<u8>>,
    middle: Map<usize, Seq<u8>>,
    after: Map<usize, Seq<u8>>,
    id: usize,
    a: Seq<u8>,
    b: Seq<u8>,
    registered: Map<Seq<char>, CodecPair<S, D>>,
    events0: Seq<MessengerEvent<C, M>>,
    events1: Seq<MessengerEvent<C, M>>,
    events2: Seq<MessengerEvent<C, M>>,
)
    requires
        receive_effect::<C, M, S, D>(before, middle, id, a, registered, events0, events1, false),
        receive_effect::<C, M, S, D>(middle, after, id, b, registered, events1, events2, false),
    ensures
        receive_effect::<C, M, S, D>(before, after, id, a + b, registered, events0, events2, false),
{
    let p = pending_bytes(before, id);
    let s1 = p + a;
    let scan1 = scan_frames::<C, S, D>(s1, registered);
    let left = s1.subrange(scan1.consumed as int, s1.len() as int);
    assert(pending_bytes(middle, id) == left);
    let s2 = left + b;
    let scan2 = scan_frames::<C, S, D>(s2, registered);
    lemma_scan_split::<C, S, D>(s1, b, registered);
    assert(p + (a + b) == s1 + b);
    let whole = scan_frames::<C, S, D>(s1 + b, registered);
    let k1 = events1.len() - events0.len();
    let k2 = events2.len() - events1.len();
    assert(events2.subrange(0, events0.len() as int) == events0) by {
        assert(events2.subrange(0, events1.len() as int) == events1);
        assert(events2.subrange(0, events0.len() as int) == events1.subrange(
            0,
            events0.len() as int,
        ));
    }
    assert forall|i: int|
        0 <= i < events2.len() - events0.len() implies is_message_event(
        #[trigger] events2[events0.len() + i],
        id,
        whole.frames[i].0,
    ) by {
        if i < k1 {
            assert(events2[events0.len() + i] == events2.subrange(0, events1.len() as int)[
                events0.len() + i]);
            assert(is_message_event(events1[events0.len() + i], id, scan1.frames[i].0));
        } else {
            let j = i - k1;
            assert(events2[events0.len() + i] == events2[events1.len() + j]);
            assert(is_message_event(events2[events1.len() + j], id, scan2.frames[j].0));
        }
    }
    lemma_scan_within::<C, S, D>(s2, registered);
    assert((s1 + b).subrange(whole.consumed as int, (s1 + b).len() as int) == s2.subrange(
        scan2.consumed as int,
        s2.len() as int,
    ));
    assert(after == before.insert(
        id,
        (s1 + b).subrange(whole.consumed as int, (s1 + b).len() as int),
    ));
}

/// The frame of a registered message is read back as that message's
/// context, ID and body, and scanning goes on after it.
pub proof fn law_scan_encoded_frame<C: Context, S, D>(
    ctx: C::V,
    msg_id: Seq<char>,
    body: Seq<u8>,
    rest: Seq<u8>,
    registered: Map<Seq<char>, CodecPair<S, D>>,
)
    requires
        C::encodable(ctx),
        utf8_bytes(msg_id).len() <= u32::MAX,
        encode_payload(C::encoding(ctx), msg_id, body).len() <= u32::MAX,
        registered.contains_key(msg_id),
    ensures
        ({
            let frame = encode_frame(encode_payload(C::encoding(ctx), msg_id, body));
            let after = scan_frames::<C, S, D>(rest, registered);
            scan_frames::<C, S, D>(frame + rest, registered) == FrameScan {
                frames: seq![(ctx, msg_id, body)] + after.frames,
                consumed: frame.len() + after.consumed,
                end: after.end,
            }
        }),
{
    let frame = encode_frame(encode_payload(C::encoding(ctx), msg_id, body));
    law_frame_roundtrip::<C>(ctx, msg_id, body, rest);
    lemma_le_u32_roundtrip(encode_payload(C::encoding(ctx), msg_id, body).len() as u32);
    assert((frame + rest).subrange(frame.len() as int, (frame + rest).len() as int) == rest);
}

/// A framed message arrives whole: when a connection with nothing pending
/// receives the frame of a registered message, either exactly one message
/// event comes of it, with the sender's context, and nothing stays pending;
/// or the message's deserializer rejected the body, no event comes of it,
/// and the connection's buffer is dropped.
pub proof fn law_frame_delivered<C: Context, M: ?Sized, S, D>(
    before: Map<usize, Seq<u8>>,
    after: Map<usize, Seq<u8>>,
    id: usize,
    ctx: C::V,
    msg_id: Seq<char>,
    body: Seq<u8>,
    registered: Map<Seq<char>, CodecPair<S, D>>,
    events0: Seq<MessengerEvent<C, M>>,
    events1: Seq<MessengerEvent<C, M>>,
    failed: bool,
)
    requires
        C::encodable(ctx),
        utf8_bytes(msg_id).len() <= u32::MAX,
        encode_payload(C::encoding(ctx), msg_id, body).len() <= u32::MAX,
        registered.contains_key(msg_id),
        pending_bytes(before, id) == Seq::<u8>::empty(),
        receive_effect::<C, M, S, D>(
            before,
            after,
            id,
            encode_frame(encode_payload(C::encoding(ctx), msg_id, body)),
            registered,
            events0,
            events1,
            failed,
        ),
    ensures
        !failed ==> {
            &&& events1.len() == events0.len() + 1
            &&& is_message_event(events1[events0.len() as int], id, ctx)
            &&& after == before.insert(id, Seq::<u8>::empty())
        },
        failed ==> events1 == events0 && after == before.remove(id),
{
    let frame = encode_frame(encode_payload(C::encoding(ctx), msg_id, body));
    let empty = Seq::<u8>::empty();
    law_scan_encoded_frame::<C, S, D>(ctx, msg_id, body, empty, registered);
    assert(frame + empty == frame);
    assert(pending_bytes(before, id) + frame == frame);
    let scan = scan_frames::<C, S, D>(frame, registered);
    assert(scan.frames.len() == 1);
    if !failed {
        assert(events1.len() - events0.len() == 1);
        assert(is_message_event(events1[events0.len() + 0int], id, scan.frames[0].0));
        assert(frame.subrange(scan.consumed as int, frame.len() as int) == empty);
    } else {
        assert(events1 == events1.subrange(0, events0.len() as int));
    }
}

} // verus!
