use rustcomm::context::{Context, EmptyContext, RpcContext};
use rustcomm::frame::{deserialize_message, encode_frame_parts, serialize_message};
use rustcomm::registry::{BodyDeserializer, BodySerializer, MessageRegistry};
use rustcomm::Error;

#[derive(Debug, PartialEq)]
struct Note {
    text: String,
}

#[derive(Clone, Copy)]
struct NoteSerializer;

#[derive(Clone, Copy)]
struct NoteDeserializer;

impl BodySerializer<Note> for NoteSerializer {
    fn serialize_body(&self, msg: &Note, buf: &mut Vec<u8>) {
        buf.extend_from_slice(msg.text.as_bytes());
    }
}

impl BodyDeserializer<Note> for NoteDeserializer {
    fn deserialize_body(&self, data: &[u8]) -> Result<Box<Note>, Error> {
        match String::from_utf8(data.to_vec()) {
            Ok(text) => Ok(Box::new(Note { text })),
            Err(_) => Err(Error::MalformedData("note is not UTF-8".to_string())),
        }
    }
}

fn note_registry() -> MessageRegistry<NoteSerializer, NoteDeserializer> {
    let mut registry = MessageRegistry::new();
    registry.register("Note", NoteSerializer, NoteDeserializer);
    registry
}

#[test]
fn frame_layout_with_empty_context() {
    let frame = encode_frame_parts("Ping", &EmptyContext, &[1, 2, 3]);
    assert_eq!(
        frame,
        vec![11, 0, 0, 0, 4, 0, 0, 0, b'P', b'i', b'n', b'g', 1, 2, 3]
    );
}

#[test]
fn serialize_message_uses_registered_codec() {
    let registry = note_registry();
    let note = Note { text: "hi".to_string() };
    let frame = serialize_message("Note", &note, &EmptyContext, &registry);
    assert_eq!(
        frame,
        vec![10, 0, 0, 0, 4, 0, 0, 0, b'N', b'o', b't', b'e', b'h', b'i']
    );
}

#[test]
fn message_roundtrip_through_frame() {
    let registry = note_registry();
    let note = Note { text: "hello".to_string() };
    let mut frame = serialize_message("Note", &note, &EmptyContext, &registry);
    let frame_len = frame.len();
    frame.extend_from_slice(&[9, 9, 9]);
    let decoded = deserialize_message::<EmptyContext, Note, _, _>(&frame, &registry);
    match decoded {
        Ok(Some((msg, _ctx, size))) => {
            assert_eq!(*msg, note);
            assert_eq!(size, frame_len);
        }
        _ => panic!("expected a decoded message"),
    }
}

#[test]
fn partial_frame_waits_for_more_data() {
    let registry = note_registry();
    let frame = serialize_message("Note", &Note { text: "abc".to_string() }, &EmptyContext, &registry);
    for cut in 0..frame.len() {
        let r = deserialize_message::<EmptyContext, Note, _, _>(&frame[..cut], &registry);
        assert!(matches!(r, Ok(None)), "prefix of {cut} bytes should be incomplete");
    }
}

#[test]
fn unknown_message_id_is_reported() {
    let registry = note_registry();
    let frame = encode_frame_parts("Other", &EmptyContext, &[]);
    let r = deserialize_message::<EmptyContext, Note, _, _>(&frame, &registry);
    match r {
        Err(Error::UnknownMessageId(id)) => assert_eq!(id, "Other"),
        _ => panic!("expected UnknownMessageId"),
    }
}

#[test]
fn invalid_utf8_message_id_is_malformed() {
    let registry = note_registry();
    let frame = vec![6, 0, 0, 0, 2, 0, 0, 0, 0xff, 0xfe];
    let r = deserialize_message::<EmptyContext, Note, _, _>(&frame, &registry);
    assert!(matches!(r, Err(Error::MalformedData(_))));
}

#[test]
fn rejected_body_is_an_error() {
    let registry = note_registry();
    let frame = encode_frame_parts("Note", &EmptyContext, &[0xff]);
    let r = deserialize_message::<EmptyContext, Note, _, _>(&frame, &registry);
    assert!(matches!(r, Err(Error::MalformedData(_))));
}

#[test]
fn short_message_id_prefix_waits() {
    let registry = note_registry();
    // The payload is complete but ends inside the message ID's length prefix.
    let frame = vec![2, 0, 0, 0, 4, 0];
    let r = deserialize_message::<EmptyContext, Note, _, _>(&frame, &registry);
    assert!(matches!(r, Ok(None)));
}

#[test]
fn rpc_context_layout() {
    let ctx = RpcContext::new(7, "svc".to_string(), "m".to_string());
    let mut buf = Vec::new();
    ctx.serialize_into(&mut buf);
    assert_eq!(
        buf,
        vec![7, 0, 0, 0, 0, 0, 0, 0, 3, 0, 0, 0, b's', b'v', b'c', 1, 0, 0, 0, b'm']
    );
}

#[test]
fn rpc_context_roundtrip() {
    let ctx = RpcContext::new(u64::MAX - 1, "Calculator".to_string(), "add".to_string());
    let mut buf = Vec::new();
    ctx.serialize_into(&mut buf);
    let len = buf.len();
    buf.extend_from_slice(&[1, 2, 3]);
    let (decoded, used) = match RpcContext::deserialize(&buf) {
        Ok(pair) => pair,
        Err(_) => panic!("context should decode"),
    };
    assert_eq!(used, len);
    assert_eq!(decoded.request_id, u64::MAX - 1);
    assert_eq!(decoded.service, "Calculator");
    assert_eq!(decoded.method, "add");
}

fn context_error(buf: &[u8]) -> String {
    match RpcContext::deserialize(buf) {
        Err(Error::MalformedData(m)) => m,
        other => panic!("expected malformed data, got {:?}", other.map(|(_, n)| n)),
    }
}

#[test]
fn rpc_context_errors() {
    assert_eq!(
        context_error(&[1, 2, 3]),
        "RpcContext requires at least 8 bytes for request_id"
    );
    assert_eq!(
        context_error(&[0, 0, 0, 0, 0, 0, 0, 0, 5, 0]),
        "RpcContext missing service length"
    );
    // Service length says 5 but only 2 bytes follow.
    let buf = vec![0, 0, 0, 0, 0, 0, 0, 0, 5, 0, 0, 0, b'a', b'b'];
    assert_eq!(context_error(&buf), "RpcContext missing service data");
    // Service text is not UTF-8.
    let buf = vec![0, 0, 0, 0, 0, 0, 0, 0, 1, 0, 0, 0, 0xff, 0, 0, 0, 0];
    assert_eq!(context_error(&buf), "Invalid service UTF-8");
    // Method length missing.
    let buf = vec![0, 0, 0, 0, 0, 0, 0, 0, 0, 0, 0, 0, 1, 0];
    assert_eq!(context_error(&buf), "RpcContext missing method length");
    // Method length says 3 but only 1 byte follows.
    let buf = vec![0, 0, 0, 0, 0, 0, 0, 0, 0, 0, 0, 0, 3, 0, 0, 0, b'x'];
    assert_eq!(context_error(&buf), "RpcContext missing method data");
    // Method text is not UTF-8.
    let buf = vec![0, 0, 0, 0, 0, 0, 0, 0, 0, 0, 0, 0, 1, 0, 0, 0, 0xc3];
    assert_eq!(context_error(&buf), "Invalid method UTF-8");
}

#[test]
fn empty_context_takes_no_bytes() {
    let mut buf = vec![5];
    EmptyContext.serialize_into(&mut buf);
    assert_eq!(buf, vec![5]);
    match EmptyContext::deserialize(&[1, 2]) {
        Ok((_, used)) => assert_eq!(used, 0),
        Err(_) => panic!("empty context always decodes"),
    }
}

#[test]
fn frame_with_rpc_context() {
    let registry = note_registry();
    let ctx = RpcContext::new(3, "s".to_string(), "m".to_string());
    let frame = serialize_message("Note", &Note { text: "x".to_string() }, &ctx, &registry);
    match deserialize_message::<RpcContext, Note, _, _>(&frame, &registry) {
        Ok(Some((msg, c, size))) => {
            assert_eq!(msg.text, "x");
            assert_eq!(c.request_id, 3);
            assert_eq!(c.service, "s");
            assert_eq!(c.method, "m");
            assert_eq!(size, frame.len());
        }
        _ => panic!("expected a message"),
    }
}

#[test]
fn registry_register_and_get() {
    let mut registry: MessageRegistry<u8, u16> = MessageRegistry::new();
    assert!(registry.get("A").is_none());
    registry.register("A", 1, 10).register("B", 2, 20);
    assert_eq!(registry.get("A").map(|p| (p.serializer, p.deserializer)), Some((1, 10)));
    registry.register("A", 3, 30);
    assert_eq!(registry.get("A").map(|p| (p.serializer, p.deserializer)), Some((3, 30)));
    assert_eq!(registry.get("B").map(|p| (p.serializer, p.deserializer)), Some((2, 20)));
    assert!(registry.get("C").is_none());
}
