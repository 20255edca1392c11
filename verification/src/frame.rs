//! Length-prefixed framing of messages.
//!
//! Each frame is a 4-byte little-endian length prefix followed by the
//! payload. The payload holds the serialized context, the message ID as a
//! length-prefixed UTF-8 string, and the message body as serialized by the
//! codec registered for that ID.
use crate::bytes::{append_bytes, append_le_u32, le_u32, lemma_le_u32_roundtrip, read_le_u32, read_u32_at, utf8_to_string};
use crate::context::{encode_text, utf8_bytes, Context};
use crate::error::Error;
use crate::registry::{BodyDeserializer, BodySerializer, CodecPair, MessageRegistry};
use vstd::prelude::*;
use vstd::string::StringExecFns;
use vstd::utf8::*;

verus! {

broadcast use {encode_utf8_valid_utf8, encode_utf8_decode_utf8};

/// Size of the frame's length prefix in bytes.
pub const FRAME_SIZE_BYTES: usize = 4;

/// Initial capacity reserved for a frame's payload.
pub const INITIAL_PAYLOAD_CAPACITY: usize = 64;

/// The payload of a frame: context bytes, the length-prefixed message ID,
/// then the body.
pub open spec fn encode_payload(ctx: Seq<u8>, msg_id: Seq<char>, body: Seq<u8>) -> Seq<u8> {
    ctx + encode_text(msg_id) + body
}

/// A frame: the payload's length as a little-endian `u32`, then the payload.
pub open spec fn encode_frame(payload: Seq<u8>) -> Seq<u8> {
    le_u32(payload.len() as u32) + payload
}

/// What the front of a byte stream holds, read as a frame.
pub enum FrameDecode<V> {
    /// More bytes are needed before the frame can be read.
    Incomplete,
    /// The bytes cannot be a frame: the context or the message ID is
    /// malformed.
    Corrupt,
    /// A frame of `size` bytes with its context, message ID and body.
    Frame { ctx: V, msg_id: Seq<char>, body: Seq<u8>, size: nat },
}

/// Reads the frame at the front of `buf` with contexts of type `C`.
pub open spec fn decode_frame<C: Context>(buf: Seq<u8>) -> FrameDecode<C::V> {
    if buf.len() < 4 {
        FrameDecode::Incomplete
    } else {
        let size = read_le_u32(buf.subrange(0, 4)) as int + 4;
        if buf.len() < size {
            FrameDecode::Incomplete
        } else {
            let payload = buf.subrange(4, size);
            match C::decoding(payload) {
                None => FrameDecode::Corrupt,
                Some((ctx, k)) => {
                    let rest = payload.subrange(k as int, payload.len() as int);
                    if rest.len() < 4 {
                        FrameDecode::Incomplete
                    } else {
                        let id_len = read_le_u32(rest.subrange(0, 4)) as int;
                        if rest.len() < 4 + id_len {
                            FrameDecode::Incomplete
                        } else {
                            let id_bytes = rest.subrange(4, 4 + id_len);
                            if !valid_utf8(id_bytes) {
                                FrameDecode::Corrupt
                            } else {
                                FrameDecode::Frame {
                                    ctx,
                                    msg_id: decode_utf8(id_bytes),
                                    body: rest.subrange(4 + id_len, rest.len() as int),
                                    size: size as nat,
                                }
                            }
                        }
                    }
                },
            }
        }
    }
}

/// Whether `out` is what the deserializer `des` gives for exactly the bytes
/// `body`.
pub open spec fn deserialized_from<M: ?Sized, D: BodyDeserializer<M>>(
    des: &D,
    body: Seq<u8>,
    out: Result<Box<M>, Error>,
) -> bool {
    exists|data: &[u8]| data@ == body && #[trigger] call_ensures(D::deserialize_body, (des, data), out)
}

/// How `deserialize_message` answers for `buf`: more bytes are needed
/// exactly when the frame is incomplete; a corrupt frame is an error; a
/// frame whose message ID is not registered is that ID's
/// `UnknownMessageId` error; a frame whose ID is registered gives what its
/// registered deserializer gives for exactly the frame's body: the message
/// with the frame's context and size, or the deserializer's error.
pub open spec fn deserialize_outcome<C: Context, M: ?Sized, S, D: BodyDeserializer<M>>(
    buf: Seq<u8>,
    registered: Map<Seq<char>, CodecPair<S, D>>,
    r: Result<Option<(Box<M>, C, usize)>, Error>,
) -> bool {
    match decode_frame::<C>(buf) {
        FrameDecode::Incomplete => r matches Ok(None),
        FrameDecode::Corrupt => r is Err,
        FrameDecode::Frame { ctx, msg_id, body, size } => if !registered.contains_key(msg_id) {
            r matches Err(Error::UnknownMessageId(s)) && s@ == msg_id
        } else {
            match r {
                Ok(Some((m, c, n))) => {
                    &&& c@ == ctx
                    &&& n == size
                    &&& deserialized_from(&registered[msg_id].deserializer, body, Ok(m))
                },
                Ok(None) => false,
                Err(e) => deserialized_from(&registered[msg_id].deserializer, body, Err(e)),
            }
        },
    }
}

/// Builds the frame for a message whose body is already serialized.
///
/// Frame format: \[length\]\[context\]\[msg_id\]\[msg_body\], where the
/// length (4 bytes, little-endian) counts everything after itself and the
/// message ID carries its own 4-byte length prefix. Lengths that do not fit
/// in 32 bits are truncated to their low 32 bits.
pub fn encode_frame_parts<C: Context>(msg_id: &str, ctx: &C, body: &[u8]) -> (frame: Vec<u8>)
    ensures
        frame@ == encode_frame(encode_payload(C::encoding(ctx@), msg_id@, body@)),
{
    let mut buf: Vec<u8> = Vec::with_capacity(FRAME_SIZE_BYTES + INITIAL_PAYLOAD_CAPACITY);
    start_frame(&mut buf);
    ctx.serialize_into(&mut buf);
    let id_bytes = msg_id.as_bytes();
    append_le_u32(&mut buf, id_bytes.len() as u32);
    append_bytes(&mut buf, id_bytes);
    append_bytes(&mut buf, body);
    finish_frame(&mut buf);
    proof {
        let payload = C::encoding(ctx@) + encode_text(msg_id@) + body@;
        assert(buf@ == encode_frame(payload));
    }
    buf
}

/// Reserves four zero bytes for the length prefix.
fn start_frame(buf: &mut Vec<u8>)
    requires
        old(buf)@.len() == 0,
    ensures
        final(buf)@ == seq![0u8, 0u8, 0u8, 0u8],
{
    buf.push(0);
    buf.push(0);
    buf.push(0);
    buf.push(0);
}

/// Fills in the length prefix with the length of everything after it.
fn finish_frame(buf: &mut Vec<u8>)
    requires
        old(buf)@.len() >= 4,
    ensures
        final(buf)@ == encode_frame(old(buf)@.subrange(4, old(buf)@.len() as int)),
{
    let payload_len = (buf.len() - FRAME_SIZE_BYTES) as u32;
    let len_bytes = vstd::bytes::u32_to_le_bytes(payload_len);
    let ghost payload = buf@.subrange(4, buf@.len() as int);
    proof {
        lemma_le_u32_roundtrip(payload_len);
    }
    buf[0] = len_bytes[0];
    buf[1] = len_bytes[1];
    buf[2] = len_bytes[2];
    buf[3] = len_bytes[3];
    assert(buf@ =~= le_u32(payload_len) + payload);
}

/// Serializes a message with its context into a length-prefixed frame.
///
/// The body is serialized by the codec registered for `msg_id`; the message
/// must be registered.
pub fn serialize_message<C: Context, M: ?Sized, S: BodySerializer<M>, D>(
    msg_id: &str,
    msg: &M,
    ctx: &C,
    registry: &MessageRegistry<S, D>,
) -> (frame: Vec<u8>)
    requires
        registry.wf(),
        registry@.contains_key(msg_id@),
    ensures
        exists|b: &mut Vec<u8>|
            {
                &&& (*b)@ == Seq::<u8>::empty()
                &&& #[trigger] call_ensures(S::serialize_body, (&registry@[msg_id@].serializer, msg, b), ())
                &&& frame@ == encode_frame(
                    encode_payload(C::encoding(ctx@), msg_id@, (*final(b))@),
                )
            },
{
    let codec_pair = match registry.get(msg_id) {
        Some(pair) => pair,
        None => {
            proof {
                assert(false);
            }
            return Vec::new();
        },
    };
    let mut body: Vec<u8> = Vec::new();
    let serialize = S::serialize_body;
    serialize(&codec_pair.serializer, msg, &mut body);
    encode_frame_parts(msg_id, ctx, body.as_slice())
}

/// Reads the frame at the front of `buf`: returns `Ok(None)` when more bytes
/// are needed, the message, its context and the frame's size when a whole
/// frame is there, and an error when the bytes cannot be a frame, the
/// message ID is not registered, or the registered deserializer rejects the
/// body.
///
/// Designed for streaming: data may arrive in pieces, and a caller waits
/// for more bytes on `Ok(None)`.
pub fn deserialize_message<C: Context, M: ?Sized, S, D: BodyDeserializer<M>>(
    buf: &[u8],
    registry: &MessageRegistry<S, D>,
) -> (r: Result<Option<(Box<M>, C, usize)>, Error>)
    requires
        registry.wf(),
    ensures
        deserialize_outcome(buf@, registry@, r),
{
    let n: usize = buf.len();
    if n < FRAME_SIZE_BYTES {
        return Ok(None);
    }
    let payload_len = read_u32_at(buf, 0) as usize;
    if n - FRAME_SIZE_BYTES < payload_len {
        return Ok(None);
    }
    let frame_size = payload_len + FRAME_SIZE_BYTES;
    let payload = &buf[FRAME_SIZE_BYTES..frame_size];
    let (ctx, ctx_bytes) = match C::deserialize(payload) {
        Ok(pair) => pair,
        Err(e) => return Err(e),
    };
    proof {
        C::lemma_decoding_within(payload@);
    }
    let rest = &payload[ctx_bytes..payload.len()];
    let rest_len: usize = rest.len();
    if rest_len < 4 {
        return Ok(None);
    }
    let id_len = read_u32_at(rest, 0) as usize;
    if rest_len - 4 < id_len {
        return Ok(None);
    }
    let msg_id = match utf8_to_string(&rest[4..4 + id_len]) {
        Ok(s) => s,
        Err(cause) => return Err(
            Error::MalformedData("Invalid UTF-8 in message ID: ".to_owned().concat(cause.as_str())),
        ),
    };
    let msg_data = &rest[4 + id_len..rest_len];
    let codec_pair = match registry.get(msg_id.as_str()) {
        Some(pair) => pair,
        None => return Err(Error::UnknownMessageId(msg_id)),
    };
    let deserialize = D::deserialize_body;
    let decoded = deserialize(&codec_pair.deserializer, msg_data);
    assert(deserialized_from(&registry@[msg_id@].deserializer, msg_data@, decoded));
    match decoded {
        Ok(msg) => Ok(Some((msg, ctx, frame_size))),
        Err(e) => Err(e),
    }
}

/// Reading a frame that was built from a context, a message ID and a body
/// gives them back, whatever bytes follow the frame.
pub proof fn law_frame_roundtrip<C: Context>(
    ctx: C::V,
    msg_id: Seq<char>,
    body: Seq<u8>,
    rest: Seq<u8>,
)
    requires
        C::encodable(ctx),
        utf8_bytes(msg_id).len() <= u32::MAX,
        encode_payload(C::encoding(ctx), msg_id, body).len() <= u32::MAX,
    ensures
        decode_frame::<C>(encode_frame(encode_payload(C::encoding(ctx), msg_id, body)) + rest)
            == (FrameDecode::Frame {
            ctx,
            msg_id,
            body,
            size: 4 + encode_payload(C::encoding(ctx), msg_id, body).len(),
        }),
{
    let payload = encode_payload(C::encoding(ctx), msg_id, body);
    let buf = encode_frame(payload) + rest;
    lemma_le_u32_roundtrip(payload.len() as u32);
    assert(buf.subrange(0, 4) == le_u32(payload.len() as u32));
    let size = payload.len() + 4;
    assert(buf.subrange(4, size as int) == payload);
    let after_ctx = encode_text(msg_id) + body;
    assert(payload == C::encoding(ctx) + after_ctx);
    C::lemma_decoding_encoding(ctx, after_ctx);
    let k = C::encoding(ctx).len();
    assert(payload.subrange(k as int, payload.len() as int) == after_ctx);
    let id_bytes = utf8_bytes(msg_id);
    lemma_le_u32_roundtrip(id_bytes.len() as u32);
    assert(after_ctx.subrange(0, 4) == le_u32(id_bytes.len() as u32));
    assert(after_ctx.subrange(4, 4 + id_bytes.len() as int) == id_bytes);
    assert(after_ctx.subrange(4 + id_bytes.len() as int, after_ctx.len() as int) == body);
}

/// A byte stream that holds less than a whole frame reads as incomplete:
/// every proper prefix of a frame asks for more bytes.
pub proof fn law_frame_prefix_incomplete<C: Context>(
    ctx: C::V,
    msg_id: Seq<char>,
    body: Seq<u8>,
    cut: int,
)
    requires
        encode_payload(C::encoding(ctx), msg_id, body).len() <= u32::MAX,
        0 <= cut < encode_frame(encode_payload(C::encoding(ctx), msg_id, body)).len(),
    ensures
        decode_frame::<C>(
            encode_frame(encode_payload(C::encoding(ctx), msg_id, body)).subrange(0, cut),
        ) is Incomplete,
{
    let payload = encode_payload(C::encoding(ctx), msg_id, body);
    let frame = encode_frame(payload);
    lemma_le_u32_roundtrip(payload.len() as u32);
    if cut >= 4 {
        assert(frame.subrange(0, cut).subrange(0, 4) == le_u32(payload.len() as u32));
    }
}


/// The receiver's deserializer is handed the sender's whole body: reading
/// the frame built from a context, a registered message ID and a body, with
/// any bytes after it, never asks for more bytes, and gives exactly what the
/// registered deserializer gives for that whole body (the message, with the
/// sender's context and the frame's length, or the deserializer's error).
pub proof fn law_deserializer_gets_whole_body<C: Context, M: ?Sized, S, D: BodyDeserializer<M>>(
    ctx: C::V,
    msg_id: Seq<char>,
    body: Seq<u8>,
    rest: Seq<u8>,
    registered: Map<Seq<char>, CodecPair<S, D>>,
    r: Result<Option<(Box<M>, C, usize)>, Error>,
)
    requires
        C::encodable(ctx),
        utf8_bytes(msg_id).len() <= u32::MAX,
        encode_payload(C::encoding(ctx), msg_id, body).len() <= u32::MAX,
        registered.contains_key(msg_id),
        deserialize_outcome(
            encode_frame(encode_payload(C::encoding(ctx), msg_id, body)) + rest,
            registered,
            r,
        ),
    ensures
        !(r matches Ok(None)),
        r matches Ok(Some((m, c, n))) ==> {
            &&& c@ == ctx
            &&& n == encode_frame(encode_payload(C::encoding(ctx), msg_id, body)).len()
            &&& deserialized_from(&registered[msg_id].deserializer, body, Ok(m))
        },
        r matches Err(e) ==> deserialized_from(&registered[msg_id].deserializer, body, Err(e)),
{
    law_frame_roundtrip::<C>(ctx, msg_id, body, rest);
    lemma_le_u32_roundtrip(encode_payload(C::encoding(ctx), msg_id, body).len() as u32);
}

/// A frame carries its whole body: its length prefix counts the context,
/// the length-prefixed message ID and every byte of the body, and the frame
/// ends with exactly those body bytes.
pub proof fn law_frame_counts_whole_body(ctx: Seq<u8>, msg_id: Seq<char>, body: Seq<u8>)
    requires
        utf8_bytes(msg_id).len() <= u32::MAX,
        encode_payload(ctx, msg_id, body).len() <= u32::MAX,
    ensures
        read_le_u32(encode_frame(encode_payload(ctx, msg_id, body)).subrange(0, 4)) == ctx.len() + 4
            + utf8_bytes(msg_id).len() + body.len(),
        encode_frame(encode_payload(ctx, msg_id, body)).len() == 4 + ctx.len() + 4 + utf8_bytes(
            msg_id,
        ).len() + body.len(),
        encode_frame(encode_payload(ctx, msg_id, body)).subrange(
            encode_frame(encode_payload(ctx, msg_id, body)).len() - body.len(),
            encode_frame(encode_payload(ctx, msg_id, body)).len() as int,
        ) == body,
{
    let payload = encode_payload(ctx, msg_id, body);
    let frame = encode_frame(payload);
    lemma_le_u32_roundtrip(payload.len() as u32);
    lemma_le_u32_roundtrip(utf8_bytes(msg_id).len() as u32);
    assert(frame.subrange(0, 4) == le_u32(payload.len() as u32));
    assert(frame.subrange(frame.len() - body.len(), frame.len() as int) =~= body);
}

} // verus!
