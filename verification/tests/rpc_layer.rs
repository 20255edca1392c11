use rustcomm::rpc::{PendingRequests, RequestIdCounter, ResponseRoute};

#[test]
fn request_ids_are_consecutive() {
    let mut ids = RequestIdCounter::new();
    assert_eq!(ids.next_id(), 0);
    assert_eq!(ids.next_id(), 1);
    assert_eq!(ids.next_id(), 2);
}

#[test]
fn response_goes_to_its_request() {
    let mut pending: PendingRequests<&str> = PendingRequests::new();
    pending.insert(1, 100, "first");
    pending.insert(2, 200, "second");
    assert!(matches!(pending.take_response(2, 200), ResponseRoute::Deliver("second")));
    // Answered requests stop waiting.
    assert!(matches!(pending.take_response(2, 200), ResponseRoute::Unmatched));
    assert!(matches!(pending.take_response(1, 100), ResponseRoute::Deliver("first")));
}

#[test]
fn response_from_wrong_connection() {
    let mut pending: PendingRequests<u8> = PendingRequests::new();
    pending.insert(5, 100, 7);
    match pending.take_response(5, 101) {
        ResponseRoute::WrongConnection { expected, sender } => {
            assert_eq!(expected, 100);
            assert_eq!(sender, 7);
        }
        _ => panic!("expected WrongConnection"),
    }
    assert!(matches!(pending.take_response(5, 100), ResponseRoute::Unmatched));
}

#[test]
fn disconnect_cancels_only_that_connection() {
    let mut pending: PendingRequests<u8> = PendingRequests::new();
    pending.insert(1, 100, 1);
    pending.insert(2, 200, 2);
    pending.insert(3, 100, 3);
    pending.cancel_connection(100);
    assert!(matches!(pending.take_response(1, 100), ResponseRoute::Unmatched));
    assert!(matches!(pending.take_response(3, 100), ResponseRoute::Unmatched));
    assert!(matches!(pending.take_response(2, 200), ResponseRoute::Deliver(2)));
}
