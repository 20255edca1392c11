//! Transport-layer events and the connection bookkeeping shared by the
//! transports.
use std::collections::{HashMap, HashSet};
use vstd::prelude::*;
use vstd::set_lib::lemma_len_subset;
use vstd::std_specs::hash::group_hash_axioms;
use vstd::std_specs::iter::IteratorSpec;

verus! {

/// Events produced by a transport's `fetch_events()`.
///
/// These events represent the lifecycle of connections and data transfer at
/// the transport layer.
#[derive(Debug, Clone, PartialEq)]
pub enum TransportEvent {
    /// The transport has no listeners or connections.
    Inactive,
    /// Connection established.
    Connected { id: usize },
    /// Connection establishment failed.
    ConnectionFailed { id: usize },
    /// Connection closed. Clean up state associated with this `id`.
    Disconnected { id: usize },
    /// Received raw bytes from connection.
    Data { id: usize, data: Vec<u8> },
}

broadcast use group_hash_axioms;

/// Wake-up token of a transport's poll; never used as an ID.
pub const WAKE_ID: usize = 2;

/// The first ID handed out to connections and listeners; IDs below it are
/// reserved for internal poll tokens.
pub const CONNECTION_ID_RANGE_START: usize = 1000;

/// How many IDs the range `[CONNECTION_ID_RANGE_START, usize::MAX]` holds.
pub open spec fn id_range_len() -> int {
    usize::MAX - CONNECTION_ID_RANGE_START + 1
}

/// How many steps forward, cycling through the ID range, it takes to reach
/// `x` from `start`; `start` itself is a whole cycle away.
pub open spec fn cyclic_distance(start: usize, x: usize) -> int {
    if x > start {
        x - start
    } else {
        usize::MAX - start + (x - CONNECTION_ID_RANGE_START) + 1
    }
}

/// Whether `id` names a listener or a connection.
pub open spec fn id_in_use<L, C>(
    listeners: Map<usize, L>,
    connections: Map<usize, C>,
    id: usize,
) -> bool {
    listeners.contains_key(id) || connections.contains_key(id)
}

/// Moves on from `next_id` to the next ID that names neither a listener nor
/// a connection, cycling back to the start of the ID range after
/// `usize::MAX`.
///
/// Every ID passed over on the way is in use, so the result is the first
/// free ID after `next_id`.
pub fn advance_connection_id<L, C>(
    next_id: usize,
    listeners: &HashMap<usize, L>,
    connections: &HashMap<usize, C>,
) -> (r: usize)
    requires
        next_id >= CONNECTION_ID_RANGE_START,
        listeners@.len() + connections@.len() < id_range_len() - 1,
    ensures
        r >= CONNECTION_ID_RANGE_START,
        !id_in_use(listeners@, connections@, r),
        forall|x: usize|
            x >= CONNECTION_ID_RANGE_START && 1 <= cyclic_distance(next_id, x) < cyclic_distance(
                next_id,
                r,
            ) ==> id_in_use(listeners@, connections@, x),
{
    let ghost used = listeners@.dom().union(connections@.dom());
    proof {
        vstd::set_lib::lemma_set_union_finite_iff(listeners@.dom(), connections@.dom());
        vstd::set_lib::lemma_len_union(listeners@.dom(), connections@.dom());
    }
    let mut id = next_id;
    let ghost mut steps: int = 0;
    let ghost mut visited: Set<usize> = Set::empty();
    loop
        invariant
            next_id >= CONNECTION_ID_RANGE_START,
            id >= CONNECTION_ID_RANGE_START,
            used == listeners@.dom().union(connections@.dom()),
            used.finite(),
            used.len() < id_range_len() - 1,
            steps == 0 ==> id == next_id,
            steps > 0 ==> cyclic_distance(next_id, id) == steps,
            0 <= steps < id_range_len() - 1,
            visited.finite(),
            visited.len() == steps,
            visited.subset_of(used),
            forall|x: usize|
                x >= CONNECTION_ID_RANGE_START ==> (visited.contains(x) <==> 1 <= cyclic_distance(
                    next_id,
                    x,
                ) <= steps),
        decreases used.len() - visited.len(),
    {
        id = match id.checked_add(1) {
            Some(n) => n,
            None => CONNECTION_ID_RANGE_START,
        };
        assert(cyclic_distance(next_id, id) == steps + 1);
        if !listeners.contains_key(&id) && !connections.contains_key(&id) {
            assert forall|x: usize|
                x >= CONNECTION_ID_RANGE_START && 1 <= cyclic_distance(next_id, x)
                    < cyclic_distance(next_id, id) implies id_in_use(
                listeners@,
                connections@,
                x,
            ) by {
                assert(visited.contains(x));
            }
            return id;
        }
        proof {
            assert(!visited.contains(id));
            visited = visited.insert(id);
            steps = steps + 1;
            lemma_len_subset(visited, used);
        }
    }
}

/// The IDs of all connections except those listed in `except_ids`, each
/// once, in the order in which the map yields its keys (which the map does
/// not fix).
///
/// These are the targets of a broadcast: `except_ids` is empty for a plain
/// broadcast and holds one ID for a broadcast that skips the sender.
pub fn connection_ids_except<C>(connections: &HashMap<usize, C>, except_ids: &[usize]) -> (ids:
    Vec<usize>)
    ensures
        ids@.no_duplicates(),
        forall|x: usize|
            ids@.contains(x) <==> connections@.contains_key(x) && !except_ids@.contains(x),
{
    let mut ids: Vec<usize> = Vec::new();
    let ghost keys = connections.keys().remaining().unref();
    for id in it: connections.keys()
        invariant
            keys == it.seq().unref(),
            keys.no_duplicates(),
            keys.to_set() == connections@.dom(),
            ids@.no_duplicates(),
            forall|x: usize|
                ids@.contains(x) <==> (exists|j: int| 0 <= j < it.index() && keys[j] == x)
                    && !except_ids@.contains(x),
    {
        let ghost i = it.index();
        let ghost before = ids@;
        assert(keys[i] == *id);
        if !slice_contains(except_ids, *id) {
            proof {
                assert(!ids@.contains(*id)) by {
                    if ids@.contains(*id) {
                        let j = choose|j: int| 0 <= j < i && keys[j] == *id;
                        assert(keys[j] == keys[i]);
                    }
                }
            }
            ids.push(*id);
        }
        proof {
            assert forall|x: usize|
                ids@.contains(x) <==> (exists|j: int| 0 <= j < i + 1 && keys[j] == x)
                    && !except_ids@.contains(x) by {
                if ids@.contains(x) && !before.contains(x) {
                    assert(ids@ == before.push(*id));
                    assert(x == *id);
                    assert(0 <= i < i + 1 && keys[i] == x);
                }
                if before.contains(x) {
                    let k = choose|k: int| 0 <= k < before.len() && before[k] == x;
                    assert(ids@[k] == x);
                }
                if exists|j: int| 0 <= j < i + 1 && keys[j] == x {
                    let j = choose|j: int| 0 <= j < i + 1 && keys[j] == x;
                    if j < i {
                        assert(exists|j: int| 0 <= j < i && keys[j] == x);
                    } else if !except_ids@.contains(x) {
                        assert(ids@ == before.push(*id));
                        assert(ids@[ids@.len() - 1] == x);
                    }
                }
                if exists|j: int| 0 <= j < i && keys[j] == x {
                    let j = choose|j: int| 0 <= j < i && keys[j] == x;
                    assert(0 <= j < i + 1 && keys[j] == x);
                }
            }
        }
    }
    proof {
        assert forall|x: usize|
            ids@.contains(x) <==> connections@.contains_key(x) && !except_ids@.contains(x) by {
            if connections@.contains_key(x) {
                assert(keys.to_set().contains(x));
                let j = choose|j: int| 0 <= j < keys.len() && keys[j] == x;
            }
            if exists|j: int| 0 <= j < keys.len() && keys[j] == x {
                let j = choose|j: int| 0 <= j < keys.len() && keys[j] == x;
                assert(keys.to_set().contains(keys[j]));
            }
        }
    }
    ids
}

/// Whether `x` occurs in `items`.
pub fn slice_contains(items: &[usize], x: usize) -> (r: bool)
    ensures
        r == items@.contains(x),
{
    let mut i: usize = 0;
    while i < items.len()
        invariant
            i <= items@.len(),
            forall|j: int| 0 <= j < i ==> items@[j] != x,
        decreases items@.len() - i,
    {
        if items[i] == x {
            return true;
        }
        i = i + 1;
    }
    false
}

/// What a transport does with a readiness event of the poller.
pub enum TokenAction {
    /// The wake-up token: there is nothing to do.
    Wake,
    /// A listener is ready: accept its pending connections.
    Accept,
    /// A connection that went away earlier in this round of events: skip
    /// the event.
    Skip,
    /// A connection is ready: read from it or write to it.
    Serve,
}

/// Decides what to do with a readiness event for poll token `token`, given
/// the listeners and the connections that went away earlier in this round
/// of events; the checks go in that order.
pub fn token_action<L>(token: usize, listeners: &HashMap<usize, L>, gone: &HashSet<usize>) -> (r:
    TokenAction)
    ensures
        r == if token == WAKE_ID {
            TokenAction::Wake
        } else if listeners@.contains_key(token) {
            TokenAction::Accept
        } else if gone@.contains(token) {
            TokenAction::Skip
        } else {
            TokenAction::Serve
        },
{
    if token == WAKE_ID {
        TokenAction::Wake
    } else if listeners.contains_key(&token) {
        TokenAction::Accept
    } else if gone.contains(&token) {
        TokenAction::Skip
    } else {
        TokenAction::Serve
    }
}

/// What reading from a readable connection gave.
pub enum ReadResult {
    /// The bytes read; the connection stays open.
    Open(Vec<u8>),
    /// The bytes read before the peer closed the connection or reading
    /// failed; the connection is gone.
    Closed(Vec<u8>),
}

/// What writing to a writable connection gave.
pub enum WriteResult {
    /// Queued bytes were written (or nothing was left to write).
    Written,
    /// The pending connection attempt succeeded.
    Connected,
    /// Writing failed; the connection is gone.
    Disconnected,
    /// The pending connection attempt failed; the connection is gone.
    ConnectionFailed,
}

/// Appends the events that a read of connection `id` produces: its data,
/// when any arrived, and then its end, when it closed. Returns whether the
/// connection is gone.
pub fn push_read_events(id: usize, result: ReadResult, events: &mut Vec<TransportEvent>) -> (gone:
    bool)
    ensures
        match result {
            ReadResult::Open(data) => {
                &&& !gone
                &&& final(events)@ == if data@.len() == 0 {
                    old(events)@
                } else {
                    old(events)@.push(TransportEvent::Data { id, data })
                }
            },
            ReadResult::Closed(data) => {
                &&& gone
                &&& final(events)@ == if data@.len() == 0 {
                    old(events)@.push(TransportEvent::Disconnected { id })
                } else {
                    old(events)@.push(TransportEvent::Data { id, data }).push(
                        TransportEvent::Disconnected { id },
                    )
                }
            },
        },
{
    match result {
        ReadResult::Open(data) => {
            if data.len() != 0 {
                events.push(TransportEvent::Data { id, data });
            }
            false
        },
        ReadResult::Closed(data) => {
            if data.len() != 0 {
                events.push(TransportEvent::Data { id, data });
            }
            events.push(TransportEvent::Disconnected { id });
            true
        },
    }
}

/// Appends the event that a write to connection `id` produces, if any.
/// Returns whether the connection is gone.
pub fn push_write_events(id: usize, result: WriteResult, events: &mut Vec<TransportEvent>) -> (gone:
    bool)
    ensures
        match result {
            WriteResult::Written => !gone && final(events)@ == old(events)@,
            WriteResult::Connected => !gone && final(events)@ == old(events)@.push(
                TransportEvent::Connected { id },
            ),
            WriteResult::Disconnected => gone && final(events)@ == old(events)@.push(
                TransportEvent::Disconnected { id },
            ),
            WriteResult::ConnectionFailed => gone && final(events)@ == old(events)@.push(
                TransportEvent::ConnectionFailed { id },
            ),
        },
{
    match result {
        WriteResult::Written => false,
        WriteResult::Connected => {
            events.push(TransportEvent::Connected { id });
            false
        },
        WriteResult::Disconnected => {
            events.push(TransportEvent::Disconnected { id });
            true
        },
        WriteResult::ConnectionFailed => {
            events.push(TransportEvent::ConnectionFailed { id });
            true
        },
    }
}

/// The event for a connection whose transport lost it: a disconnect when it
/// had been established, a failed attempt otherwise.
pub fn lost_connection_event(id: usize, was_connected: bool) -> (event: TransportEvent)
    ensures
        event == if was_connected {
            TransportEvent::Disconnected { id }
        } else {
            TransportEvent::ConnectionFailed { id }
        },
{
    if was_connected {
        TransportEvent::Disconnected { id }
    } else {
        TransportEvent::ConnectionFailed { id }
    }
}

} // verus!
