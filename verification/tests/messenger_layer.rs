use rustcomm::context::{EmptyContext, RpcContext};
use rustcomm::frame::encode_frame_parts;
use rustcomm::messenger::{EventOutcome, MessengerEvent, ReceiveBuffers};
use rustcomm::registry::{BodyDeserializer, MessageRegistry};
use rustcomm::transport::TransportEvent;
use rustcomm::Error;

#[derive(Debug, PartialEq)]
struct Text(String);

#[derive(Clone, Copy)]
struct TextCodec;

impl BodyDeserializer<Text> for TextCodec {
    fn deserialize_body(&self, data: &[u8]) -> Result<Box<Text>, Error> {
        if data.first() == Some(&0xee) {
            return Err(Error::MalformedData("rejected".to_string()));
        }
        Ok(Box::new(Text(String::from_utf8_lossy(data).into_owned())))
    }
}

fn registry() -> MessageRegistry<(), TextCodec> {
    let mut r = MessageRegistry::new();
    r.register("Text", (), TextCodec);
    r
}

fn texts(events: &[MessengerEvent<EmptyContext, Text>]) -> Vec<(usize, String)> {
    events
        .iter()
        .filter_map(|e| match e {
            MessengerEvent::Message { id, msg, .. } => Some((*id, msg.0.clone())),
            _ => None,
        })
        .collect()
}

fn stream_of(words: &[&str]) -> Vec<u8> {
    let mut bytes = Vec::new();
    for w in words {
        bytes.extend(encode_frame_parts("Text", &EmptyContext, w.as_bytes()));
    }
    bytes
}

#[test]
fn whole_frames_become_messages_in_order() {
    let reg = registry();
    let mut buffers = ReceiveBuffers::new();
    let mut events = Vec::new();
    let failed = buffers.receive::<EmptyContext, Text, _, _>(7, stream_of(&["a", "bc", "def"]), &reg, &mut events);
    assert!(!failed);
    assert_eq!(
        texts(&events),
        vec![(7, "a".to_string()), (7, "bc".to_string()), (7, "def".to_string())]
    );
}

#[test]
fn frames_split_anywhere_give_the_same_messages() {
    let reg = registry();
    let stream = stream_of(&["hello", "", "world!"]);
    for cut in 0..=stream.len() {
        let mut buffers = ReceiveBuffers::new();
        let mut events = Vec::new();
        assert!(!buffers.receive::<EmptyContext, Text, _, _>(1, stream[..cut].to_vec(), &reg, &mut events));
        assert!(!buffers.receive::<EmptyContext, Text, _, _>(1, stream[cut..].to_vec(), &reg, &mut events));
        assert_eq!(
            texts(&events),
            vec![(1, "hello".to_string()), (1, "".to_string()), (1, "world!".to_string())],
            "split at {cut}"
        );
    }
}

#[test]
fn byte_by_byte_delivery() {
    let reg = registry();
    let stream = stream_of(&["x", "yz"]);
    let mut buffers = ReceiveBuffers::new();
    let mut events = Vec::new();
    for b in stream {
        assert!(!buffers.receive::<EmptyContext, Text, _, _>(3, vec![b], &reg, &mut events));
    }
    assert_eq!(texts(&events), vec![(3, "x".to_string()), (3, "yz".to_string())]);
}

#[test]
fn connections_have_separate_buffers() {
    let reg = registry();
    let a = stream_of(&["one"]);
    let b = stream_of(&["two"]);
    let mut buffers = ReceiveBuffers::new();
    let mut events = Vec::new();
    buffers.receive::<EmptyContext, Text, _, _>(1, a[..3].to_vec(), &reg, &mut events);
    buffers.receive::<EmptyContext, Text, _, _>(2, b[..5].to_vec(), &reg, &mut events);
    buffers.receive::<EmptyContext, Text, _, _>(1, a[3..].to_vec(), &reg, &mut events);
    buffers.receive::<EmptyContext, Text, _, _>(2, b[5..].to_vec(), &reg, &mut events);
    assert_eq!(texts(&events), vec![(1, "one".to_string()), (2, "two".to_string())]);
}

#[test]
fn unknown_message_fails_after_earlier_messages() {
    let reg = registry();
    let mut stream = stream_of(&["ok"]);
    stream.extend(encode_frame_parts("Nope", &EmptyContext, b"x"));
    stream.extend(stream_of(&["never"]));
    let mut buffers = ReceiveBuffers::new();
    let mut events = Vec::new();
    assert!(buffers.receive::<EmptyContext, Text, _, _>(4, stream, &reg, &mut events));
    assert_eq!(texts(&events), vec![(4, "ok".to_string())]);
}

#[test]
fn rejected_body_fails_the_connection() {
    let reg = registry();
    let mut stream = stream_of(&["fine"]);
    stream.extend(encode_frame_parts("Text", &EmptyContext, &[0xee]));
    let mut buffers = ReceiveBuffers::new();
    let mut events = Vec::new();
    assert!(buffers.receive::<EmptyContext, Text, _, _>(5, stream, &reg, &mut events));
    assert_eq!(texts(&events), vec![(5, "fine".to_string())]);
    // The buffer was dropped: a fresh frame is read from scratch.
    let mut more = Vec::new();
    assert!(!buffers.receive::<EmptyContext, Text, _, _>(5, stream_of(&["again"]), &reg, &mut more));
    assert_eq!(texts(&more), vec![(5, "again".to_string())]);
}

#[test]
fn transport_events_map_to_messenger_events() {
    let reg = registry();
    let mut buffers = ReceiveBuffers::new();
    let mut events: Vec<MessengerEvent<EmptyContext, Text>> = Vec::new();
    assert!(matches!(
        buffers.on_transport_event(TransportEvent::Connected { id: 9 }, &reg, &mut events),
        EventOutcome::Continue
    ));
    let frame = stream_of(&["hey"]);
    assert!(matches!(
        buffers.on_transport_event(TransportEvent::Data { id: 9, data: frame[..4].to_vec() }, &reg, &mut events),
        EventOutcome::Continue
    ));
    // Disconnect drops the half frame.
    assert!(matches!(
        buffers.on_transport_event(TransportEvent::Disconnected { id: 9 }, &reg, &mut events),
        EventOutcome::Continue
    ));
    assert!(matches!(
        buffers.on_transport_event(TransportEvent::Data { id: 9, data: frame.clone() }, &reg, &mut events),
        EventOutcome::Continue
    ));
    assert!(matches!(
        buffers.on_transport_event(TransportEvent::ConnectionFailed { id: 10 }, &reg, &mut events),
        EventOutcome::Continue
    ));
    let bad = vec![6, 0, 0, 0, 2, 0, 0, 0, 0xff, 0xfe];
    assert!(matches!(
        buffers.on_transport_event(TransportEvent::Data { id: 9, data: bad }, &reg, &mut events),
        EventOutcome::CloseConnection { id: 9 }
    ));
    assert!(matches!(
        buffers.on_transport_event(TransportEvent::Inactive, &reg, &mut events),
        EventOutcome::Inactive
    ));
    assert!(matches!(events[0], MessengerEvent::Connected { id: 9 }));
    assert!(matches!(events[1], MessengerEvent::Disconnected { id: 9 }));
    assert!(matches!(&events[2], MessengerEvent::Message { id: 9, msg, .. } if msg.0 == "hey"));
    assert!(matches!(events[3], MessengerEvent::ConnectionFailed { id: 10 }));
    assert!(matches!(events[4], MessengerEvent::Inactive));
    assert_eq!(events.len(), 5);
}

#[test]
fn rpc_context_travels_with_the_message() {
    let mut reg: MessageRegistry<(), TextCodec> = MessageRegistry::new();
    reg.register("Text", (), TextCodec);
    let ctx = RpcContext::new(41, "Echo".to_string(), "say".to_string());
    let frame = encode_frame_parts("Text", &ctx, b"hi");
    let mut buffers = ReceiveBuffers::new();
    let mut events: Vec<MessengerEvent<RpcContext, Text>> = Vec::new();
    assert!(!buffers.receive(2, frame, &reg, &mut events));
    match &events[0] {
        MessengerEvent::Message { id, msg, ctx } => {
            assert_eq!(*id, 2);
            assert_eq!(msg.0, "hi");
            assert_eq!(ctx.request_id, 41);
            assert_eq!(ctx.service, "Echo");
            assert_eq!(ctx.method, "say");
        }
        _ => panic!("expected a message"),
    }
}
