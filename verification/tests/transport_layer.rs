use rustcomm::connection::{
    shutdown_directions, ConnectionState, Interest, ShutdownHow, SpuriousWakeups,
    StreamHalfShutdown,
};
use rustcomm::transport::{
    advance_connection_id, connection_ids_except, lost_connection_event, push_read_events,
    push_write_events, slice_contains, token_action, ReadResult, TokenAction, TransportEvent,
    WriteResult, CONNECTION_ID_RANGE_START, WAKE_ID,
};
use std::collections::{HashMap, HashSet};

fn map_of(ids: &[usize]) -> HashMap<usize, ()> {
    ids.iter().map(|&i| (i, ())).collect()
}

#[test]
fn next_id_skips_ids_in_use() {
    let listeners = map_of(&[1001]);
    let connections = map_of(&[1002, 1004]);
    assert_eq!(advance_connection_id(1000, &listeners, &connections), 1003);
    assert_eq!(advance_connection_id(1003, &listeners, &connections), 1005);
}

#[test]
fn next_id_wraps_to_range_start() {
    let listeners = map_of(&[CONNECTION_ID_RANGE_START]);
    let connections = map_of(&[usize::MAX]);
    assert_eq!(
        advance_connection_id(usize::MAX - 1, &listeners, &connections),
        CONNECTION_ID_RANGE_START + 1
    );
    let empty: HashMap<usize, ()> = HashMap::new();
    assert_eq!(advance_connection_id(usize::MAX, &empty, &empty), CONNECTION_ID_RANGE_START);
}

#[test]
fn broadcast_targets() {
    let connections = map_of(&[1000, 1001, 1002, 1003]);
    let mut all = connection_ids_except(&connections, &[]);
    all.sort();
    assert_eq!(all, vec![1000, 1001, 1002, 1003]);
    let mut but_one = connection_ids_except(&connections, &[1001]);
    but_one.sort();
    assert_eq!(but_one, vec![1000, 1002, 1003]);
    let mut but_many = connection_ids_except(&connections, &[1000, 1003, 77]);
    but_many.sort();
    assert_eq!(but_many, vec![1001, 1002]);
    let none: HashMap<usize, ()> = HashMap::new();
    assert!(connection_ids_except(&none, &[1]).is_empty());
}

#[test]
fn contains_in_slice() {
    assert!(slice_contains(&[4, 5, 6], 6));
    assert!(!slice_contains(&[4, 5, 6], 7));
    assert!(!slice_contains(&[], 1));
}

#[test]
fn read_events() {
    let mut events = Vec::new();
    assert!(!push_read_events(1, ReadResult::Open(vec![]), &mut events));
    assert!(events.is_empty());
    assert!(!push_read_events(1, ReadResult::Open(vec![1, 2]), &mut events));
    assert_eq!(events, vec![TransportEvent::Data { id: 1, data: vec![1, 2] }]);
    assert!(push_read_events(2, ReadResult::Closed(vec![3]), &mut events));
    assert_eq!(
        events[1..],
        [TransportEvent::Data { id: 2, data: vec![3] }, TransportEvent::Disconnected { id: 2 }]
    );
    assert!(push_read_events(3, ReadResult::Closed(vec![]), &mut events));
    assert_eq!(events[3], TransportEvent::Disconnected { id: 3 });
}

#[test]
fn write_events() {
    let mut events = Vec::new();
    assert!(!push_write_events(1, WriteResult::Written, &mut events));
    assert!(!push_write_events(1, WriteResult::Connected, &mut events));
    assert!(push_write_events(2, WriteResult::Disconnected, &mut events));
    assert!(push_write_events(3, WriteResult::ConnectionFailed, &mut events));
    assert_eq!(
        events,
        vec![
            TransportEvent::Connected { id: 1 },
            TransportEvent::Disconnected { id: 2 },
            TransportEvent::ConnectionFailed { id: 3 },
        ]
    );
}

#[test]
fn lost_connections() {
    assert_eq!(lost_connection_event(5, true), TransportEvent::Disconnected { id: 5 });
    assert_eq!(lost_connection_event(5, false), TransportEvent::ConnectionFailed { id: 5 });
}

#[test]
fn outgoing_connection_lifecycle() {
    let mut state = ConnectionState::outgoing();
    assert!(!state.is_connected());
    assert_eq!(state.interest(), Interest::Writable);
    // Data queued before the connection completes waits for it.
    assert!(state.queue_data(vec![1, 2, 3]));
    assert_eq!(state.interest(), Interest::ReadWritable);
    assert!(!state.queue_data(vec![4]));
    assert_eq!(state.send_buf(), &[1, 2, 3, 4]);
    let registered = state.interest();
    state.establish();
    assert!(state.is_connected());
    // A partial write keeps the rest and the interest.
    assert!(!state.finish_write(3, registered));
    assert_eq!(state.send_buf(), &[4]);
    assert_eq!(state.interest(), Interest::ReadWritable);
    // Writing everything drops writability.
    assert!(state.finish_write(1, Interest::ReadWritable));
    assert!(state.send_buf().is_empty());
    assert_eq!(state.interest(), Interest::Readable);
}

#[test]
fn accepted_connection_starts_readable() {
    let mut state = ConnectionState::accepted();
    assert!(state.is_connected());
    assert_eq!(state.interest(), Interest::Readable);
    assert!(state.send_buf().is_empty());
    assert!(state.queue_data(vec![9]));
    assert!(state.finish_write(0, Interest::Writable));
    assert_eq!(state.interest(), Interest::ReadWritable);
}

#[test]
fn spurious_wakeups_limit() {
    let mut counter = SpuriousWakeups::new(2);
    assert!(!counter.track(true));
    assert!(!counter.track(true));
    assert!(!counter.track(false));
    assert!(!counter.track(true));
    assert!(!counter.track(true));
    assert!(counter.track(true));
}

#[test]
fn half_shutdown_requests() {
    let mut half = StreamHalfShutdown::new();
    assert!(!half.pending());
    assert!(!half.is_requested());
    half.request();
    assert!(half.pending());
    assert!(half.is_requested());
    half.mark_applied();
    assert!(!half.pending());
    half.request();
    assert!(!half.pending());
}

#[test]
fn shutdown_modes() {
    assert_eq!(shutdown_directions(ShutdownHow::Read), (true, false));
    assert_eq!(shutdown_directions(ShutdownHow::Write), (false, true));
    assert_eq!(shutdown_directions(ShutdownHow::Both), (true, true));
}

#[test]
fn poll_tokens_are_dispatched_in_order() {
    let mut listeners: HashMap<usize, ()> = HashMap::new();
    listeners.insert(1000, ());
    let mut gone = HashSet::new();
    gone.insert(1001);
    gone.insert(WAKE_ID);
    assert!(matches!(token_action(WAKE_ID, &listeners, &gone), TokenAction::Wake));
    assert!(matches!(token_action(1000, &listeners, &gone), TokenAction::Accept));
    assert!(matches!(token_action(1001, &listeners, &gone), TokenAction::Skip));
    assert!(matches!(token_action(1002, &listeners, &gone), TokenAction::Serve));
}
