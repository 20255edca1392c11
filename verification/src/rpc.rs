//! The request/response layer's bookkeeping: which requests await a
//! response, on which connection, and where each response goes.
use std::collections::HashMap;
use vstd::prelude::*;
use vstd::std_specs::hash::group_hash_axioms;
use vstd::std_specs::iter::IteratorSpec;

verus! {

broadcast use group_hash_axioms;

/// Hands out request IDs: consecutive values, wrapping around after
/// `u64::MAX`.
pub struct RequestIdCounter {
    next: u64,
}

impl RequestIdCounter {
    /// The ID that the next request gets.
    pub closed spec fn spec_next(&self) -> u64 {
        self.next
    }

    /// A counter whose first ID is 0.
    pub fn new() -> (r: Self)
        ensures
            r.spec_next() == 0,
    {
        Self { next: 0 }
    }

    /// Takes the next request ID.
    pub fn next_id(&mut self) -> (id: u64)
        ensures
            id == old(self).spec_next(),
            final(self).spec_next() == (if id == u64::MAX {
                0
            } else {
                (id + 1) as u64
            }),
    {
        let id = self.next;
        self.next = self.next.wrapping_add(1);
        id
    }
}

/// Where a response goes.
pub enum ResponseRoute<S> {
    /// No request with this ID is waiting; the response is dropped.
    Unmatched,
    /// The waiting request's sender; the response is delivered to it.
    Deliver(S),
    /// A request with this ID is waiting, but on another connection: the
    /// response did not come from the peer the request was sent to. The
    /// request is no longer waiting; `expected` is the connection it was
    /// sent on.
    WrongConnection { expected: usize, sender: S },
}

/// The requests that await a response: for each request ID, the connection
/// it was sent on and the sender through which its response is handed over.
pub struct PendingRequests<S> {
    requests: HashMap<u64, (usize, S)>,
}

impl<S> View for PendingRequests<S> {
    type V = Map<u64, (usize, S)>;

    closed spec fn view(&self) -> Map<u64, (usize, S)> {
        self.requests@
    }
}

/// The pending requests of `pending` that were not sent on connection `id`.
pub open spec fn without_connection<S>(pending: Map<u64, (usize, S)>, id: usize) -> Map<
    u64,
    (usize, S),
> {
    pending.restrict(pending.dom().filter(|k: u64| pending[k].0 != id))
}

/// What routing a response for `request_id` from connection `from` does to
/// the pending requests `before`, leaving `after` and answering `route`.
pub open spec fn routed<S>(
    before: Map<u64, (usize, S)>,
    after: Map<u64, (usize, S)>,
    request_id: u64,
    from: usize,
    route: ResponseRoute<S>,
) -> bool {
    &&& after == before.remove(request_id)
    &&& match route {
        ResponseRoute::Unmatched => !before.contains_key(request_id),
        ResponseRoute::Deliver(s) => before.contains_key(request_id) && before[request_id].0
            == from && before[request_id].1 == s,
        ResponseRoute::WrongConnection { expected, sender } => before.contains_key(request_id)
            && before[request_id].0 == expected && expected != from && before[request_id].1
            == sender,
    }
}

impl<S> PendingRequests<S> {
    /// No pending requests.
    pub fn new() -> (r: Self)
        ensures
            r@ == Map::<u64, (usize, S)>::empty(),
    {
        Self { requests: HashMap::new() }
    }

    /// Records a request sent on connection `connection_id`, replacing any
    /// request pending under the same ID.
    pub fn insert(&mut self, request_id: u64, connection_id: usize, sender: S)
        ensures
            final(self)@ == old(self)@.insert(request_id, (connection_id, sender)),
    {
        self.requests.insert(request_id, (connection_id, sender));
    }

    /// Cancels every request pending on connection `id`: their senders are
    /// dropped, which tells the waiting callers that the connection closed.
    pub fn cancel_connection(&mut self, id: usize)
        ensures
            final(self)@ == without_connection(old(self)@, id),
    {
        let mut doomed: Vec<u64> = Vec::new();
        let ghost keys = self.requests.keys().remaining().unref();
        for key in it: self.requests.keys()
            invariant
                keys == it.seq().unref(),
                keys.to_set() == self.requests@.dom(),
                forall|k: u64|
                    doomed@.contains(k) ==> self.requests@.contains_key(k)
                        && self.requests@[k].0 == id,
                forall|j: int|
                    0 <= j < it.index() && #[trigger] self.requests@[keys[j]].0 == id
                        ==> doomed@.contains(keys[j]),
        {
            let ghost i = it.index();
            let ghost before = doomed@;
            match self.requests.get(key) {
                Some(entry) => {
                    if entry.0 == id {
                        doomed.push(*key);
                    }
                },
                None => {},
            }
            proof {
                assert(keys[i] == *key);
                assert(self.requests@.contains_key(*key)) by {
                    assert(keys.to_set().contains(keys[i]));
                }
                assert forall|k: u64| doomed@.contains(k) implies self.requests@.contains_key(k)
                    && self.requests@[k].0 == id by {
                    if !before.contains(k) {
                        assert(k == *key);
                    }
                }
                assert forall|j: int|
                    0 <= j < i + 1 && #[trigger] self.requests@[keys[j]].0 == id implies doomed@.contains(
                    keys[j],
                ) by {
                    if j < i {
                        let m = choose|m: int| 0 <= m < before.len() && before[m] == keys[j];
                        assert(doomed@[m] == keys[j]);
                    } else {
                        assert(doomed@[doomed@.len() - 1] == keys[j]);
                    }
                }
            }
        }
        let ghost original = self.requests@;
        let mut i: usize = 0;
        while i < doomed.len()
            invariant
                i <= doomed@.len(),
                forall|k: u64|
                    doomed@.contains(k) ==> original.contains_key(k) && original[k].0 == id,
                forall|k: u64|
                    original.contains_key(k) && original[k].0 == id ==> doomed@.contains(k),
                forall|k: u64|
                    #![trigger self.requests@.contains_key(k)]
                    self.requests@.contains_key(k) <==> original.contains_key(k) && !(exists|
                        j: int,
                    | 0 <= j < i && doomed@[j] == k),
                forall|k: u64| #[trigger]
                    self.requests@.contains_key(k) ==> self.requests@[k] == original[k],
            decreases doomed@.len() - i,
        {
            let key = doomed[i];
            self.requests.remove(&key);
            proof {
                assert forall|k: u64|
                    #![trigger self.requests@.contains_key(k)]
                    self.requests@.contains_key(k) <==> original.contains_key(k) && !(exists|
                        j: int,
                    | 0 <= j < i + 1 && doomed@[j] == k) by {
                    if exists|j: int| 0 <= j < i && doomed@[j] == k {
                        assert(exists|j: int| 0 <= j < i + 1 && doomed@[j] == k);
                    }
                    if k != key && (exists|j: int| 0 <= j < i + 1 && doomed@[j] == k) {
                        let j = choose|j: int| 0 <= j < i + 1 && doomed@[j] == k;
                        assert(j < i);
                    }
                }
            }
            i = i + 1;
        }
        proof {
            assert(self.requests@ =~= without_connection(original, id)) by {
                assert forall|k: u64| #[trigger]
                    self.requests@.contains_key(k) == without_connection(
                        original,
                        id,
                    ).contains_key(k) by {
                    if original.contains_key(k) && original[k].0 == id {
                        let j = choose|j: int| 0 <= j < doomed@.len() && doomed@[j] == k;
                    }
                    if exists|j: int| 0 <= j < i && doomed@[j] == k {
                        let j = choose|j: int| 0 <= j < i && doomed@[j] == k;
                        assert(doomed@.contains(k));
                    }
                }
            }
        }
    }

    /// Routes a response that arrived on connection `from` for
    /// `request_id`: the matching request stops waiting, and its sender is
    /// handed back when the response came from the connection that the
    /// request was sent on.
    pub fn take_response(&mut self, request_id: u64, from: usize) -> (route: ResponseRoute<S>)
        ensures
            routed(old(self)@, final(self)@, request_id, from, route),
    {
        match self.requests.remove(&request_id) {
            None => ResponseRoute::Unmatched,
            Some((expected, sender)) => if expected == from {
                ResponseRoute::Deliver(sender)
            } else {
                ResponseRoute::WrongConnection { expected, sender }
            },
        }
    }
}

/// A response is matched to its request: after a request is recorded, a
/// response for its ID from its connection is delivered to its sender,
/// and the request stops waiting.
pub proof fn law_request_response<S>(
    before: Map<u64, (usize, S)>,
    request_id: u64,
    connection_id: usize,
    sender: S,
    after: Map<u64, (usize, S)>,
    route: ResponseRoute<S>,
)
    requires
        routed(
            before.insert(request_id, (connection_id, sender)),
            after,
            request_id,
            connection_id,
            route,
        ),
    ensures
        route == ResponseRoute::Deliver(sender),
        !after.contains_key(request_id),
{
}

/// A closed connection cancels exactly its own requests: the requests
/// pending on other connections keep waiting, unchanged.
pub proof fn law_disconnect_cancels_own_requests<S>(
    before: Map<u64, (usize, S)>,
    id: usize,
    request_id: u64,
)
    ensures
        !(before.contains_key(request_id) && before[request_id].0 == id) ==> (without_connection(
            before,
            id,
        ).contains_key(request_id) == before.contains_key(request_id)),
        before.contains_key(request_id) && before[request_id].0 != id ==> without_connection(
            before,
            id,
        )[request_id] == before[request_id],
        before.contains_key(request_id) && before[request_id].0 == id ==> !without_connection(
            before,
            id,
        ).contains_key(request_id),
{
}

} // verus!
