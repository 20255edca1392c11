//! Per-connection state that the transports keep beside their sockets: the
//! send buffer and poll interest of a TCP connection, the spurious wake-up
//! counter, and the half-shutdown requests of a QUIC stream.
use vstd::prelude::*;

verus! {

/// The readiness a connection is registered for with the poller.
#[derive(Debug, Clone, Copy, PartialEq, Eq, Structural)]
pub enum Interest {
    Readable,
    Writable,
    ReadWritable,
}

/// The send side of a TCP connection: whether the connection is
/// established, what readiness it waits for, and the bytes queued for
/// sending.
pub struct ConnectionState {
    connected: bool,
    interest: Interest,
    send_buf: Vec<u8>,
}

impl ConnectionState {
    /// Whether the connection is established.
    pub closed spec fn spec_connected(&self) -> bool {
        self.connected
    }

    /// The readiness the connection is registered for.
    pub closed spec fn spec_interest(&self) -> Interest {
        self.interest
    }

    /// The bytes waiting to be sent.
    pub closed spec fn spec_send_buf(&self) -> Seq<u8> {
        self.send_buf@
    }

    /// A connection that `connect()` started: not yet established, waiting
    /// to become writable.
    pub fn outgoing() -> (r: Self)
        ensures
            !r.spec_connected(),
            r.spec_interest() == Interest::Writable,
            r.spec_send_buf() == Seq::<u8>::empty(),
    {
        Self { connected: false, interest: Interest::Writable, send_buf: Vec::new() }
    }

    /// A connection that a listener accepted: established, waiting to become
    /// readable.
    pub fn accepted() -> (r: Self)
        ensures
            r.spec_connected(),
            r.spec_interest() == Interest::Readable,
            r.spec_send_buf() == Seq::<u8>::empty(),
    {
        Self { connected: true, interest: Interest::Readable, send_buf: Vec::new() }
    }

    /// Whether the connection is established.
    pub fn is_connected(&self) -> (r: bool)
        ensures
            r == self.spec_connected(),
    {
        self.connected
    }

    /// The readiness the connection is registered for.
    pub fn interest(&self) -> (r: Interest)
        ensures
            r == self.spec_interest(),
    {
        self.interest
    }

    /// The bytes waiting to be sent.
    pub fn send_buf(&self) -> (r: &[u8])
        ensures
            r@ == self.spec_send_buf(),
    {
        self.send_buf.as_slice()
    }

    /// Queues data to be sent and asks for writability as well as
    /// readability.
    ///
    /// Returns whether the registration with the poller must be updated.
    pub fn queue_data(&mut self, buf: Vec<u8>) -> (reregister: bool)
        ensures
            final(self).spec_connected() == old(self).spec_connected(),
            final(self).spec_send_buf() == old(self).spec_send_buf() + buf@,
            final(self).spec_interest() == Interest::ReadWritable,
            reregister == (old(self).spec_interest() != Interest::ReadWritable),
    {
        if self.send_buf.len() == 0 {
            self.send_buf = buf;
            assert(self.send_buf@ == old(self).send_buf@ + buf@);
        } else {
            let mut buf = buf;
            self.send_buf.append(&mut buf);
        }
        let old_interest = self.interest;
        self.interest = Interest::ReadWritable;
        old_interest != self.interest
    }

    /// Records that the connection attempt succeeded: the connection now
    /// waits for both readability and writability.
    pub fn establish(&mut self)
        requires
            !old(self).spec_connected(),
        ensures
            final(self).spec_connected(),
            final(self).spec_interest() == Interest::ReadWritable,
            final(self).spec_send_buf() == old(self).spec_send_buf(),
    {
        self.connected = true;
        self.interest = Interest::ReadWritable;
    }

    /// Records that the first `sent` queued bytes went out.
    ///
    /// When everything queued went out, the connection only waits for
    /// readability. Returns whether the registration with the poller must
    /// be updated, given the interest it was registered with before this
    /// round of writing.
    pub fn finish_write(&mut self, sent: usize, registered: Interest) -> (reregister: bool)
        requires
            old(self).spec_connected(),
            sent <= old(self).spec_send_buf().len(),
        ensures
            final(self).spec_connected(),
            final(self).spec_send_buf() == old(self).spec_send_buf().subrange(
                sent as int,
                old(self).spec_send_buf().len() as int,
            ),
            final(self).spec_interest() == if sent == old(self).spec_send_buf().len() {
                Interest::Readable
            } else {
                old(self).spec_interest()
            },
            reregister == (registered != final(self).spec_interest()),
    {
        if sent == self.send_buf.len() {
            self.interest = Interest::Readable;
        }
        let rest = self.send_buf.split_off(sent);
        self.send_buf = rest;
        registered != self.interest
    }
}

/// Counts consecutive wake-ups of the poller that brought no work.
pub struct SpuriousWakeups {
    count: usize,
    max: u32,
}

impl SpuriousWakeups {
    /// The number of consecutive spurious wake-ups so far.
    pub closed spec fn spec_count(&self) -> nat {
        self.count as nat
    }

    /// The most consecutive spurious wake-ups that are tolerated.
    pub closed spec fn spec_max(&self) -> nat {
        self.max as nat
    }

    /// A counter that tolerates `max` consecutive spurious wake-ups.
    pub fn new(max: u32) -> (r: Self)
        ensures
            r.spec_count() == 0,
            r.spec_max() == max,
    {
        Self { count: 0, max }
    }

    /// Records whether a wake-up was spurious: a spurious one adds to the
    /// count, any other resets it.
    ///
    /// Returns whether the count now exceeds the tolerated maximum, which
    /// means something is wrong with the event loop.
    pub fn track(&mut self, is_spurious: bool) -> (exceeded: bool)
        requires
            old(self).spec_count() <= old(self).spec_max(),
            old(self).spec_count() < usize::MAX,
        ensures
            final(self).spec_max() == old(self).spec_max(),
            final(self).spec_count() == if is_spurious {
                old(self).spec_count() + 1
            } else {
                0
            },
            exceeded == (final(self).spec_count() > final(self).spec_max()),
    {
        if is_spurious {
            self.count = self.count + 1;
            self.count > self.max as usize
        } else {
            self.count = 0;
            false
        }
    }
}

/// One direction of a stream that can be shut down on request: the request
/// is recorded first and applied once the stream allows it.
#[derive(Debug, Default)]
pub struct StreamHalfShutdown {
    requested: bool,
    applied: bool,
}

impl StreamHalfShutdown {
    /// Whether a shutdown was requested.
    pub closed spec fn spec_requested(&self) -> bool {
        self.requested
    }

    /// Whether the requested shutdown was carried out.
    pub closed spec fn spec_applied(&self) -> bool {
        self.applied
    }

    /// A direction with no shutdown requested.
    pub fn new() -> (r: Self)
        ensures
            !r.spec_requested(),
            !r.spec_applied(),
    {
        Self { requested: false, applied: false }
    }

    /// Records a shutdown request.
    pub fn request(&mut self)
        ensures
            final(self).spec_requested(),
            final(self).spec_applied() == old(self).spec_applied(),
    {
        self.requested = true;
    }

    /// Records that the shutdown was carried out.
    pub fn mark_applied(&mut self)
        ensures
            final(self).spec_requested() == old(self).spec_requested(),
            final(self).spec_applied(),
    {
        self.applied = true;
    }

    /// Whether a shutdown was requested and not yet carried out.
    pub fn pending(&self) -> (r: bool)
        ensures
            r == (self.spec_requested() && !self.spec_applied()),
    {
        self.requested && !self.applied
    }

    /// Whether a shutdown was requested.
    pub fn is_requested(&self) -> (r: bool)
        ensures
            r == self.spec_requested(),
    {
        self.requested
    }
}

/// Which directions of a connection to shut down.
#[derive(Debug, Clone, Copy, PartialEq, Eq, Structural)]
pub enum ShutdownHow {
    Read,
    Write,
    Both,
}

/// The (read, write) directions that a shutdown mode covers.
pub fn shutdown_directions(how: ShutdownHow) -> (r: (bool, bool))
    ensures
        r.0 == (how is Read || how is Both),
        r.1 == (how is Write || how is Both),
{
    match how {
        ShutdownHow::Read => (true, false),
        ShutdownHow::Write => (false, true),
        ShutdownHow::Both => (true, true),
    }
}

} // verus!
