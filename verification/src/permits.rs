//! Counting admission control for outbound network calls: a pool of
//! permits whose capacity is fixed when the pool is made. A call may only
//! start while it holds a permit, so the number of in-flight calls never
//! exceeds the capacity.

use vstd::prelude::*;

verus! {

/// A counting permit pool with a fixed capacity of at least one.
pub struct PermitPool {
    capacity: usize,
    available: usize,
}

impl PermitPool {
    /// The fixed number of permits the pool was made with.
    pub closed spec fn capacity(self) -> nat {
        self.capacity as nat
    }

    /// The number of permits not currently held.
    pub closed spec fn available(self) -> nat {
        self.available as nat
    }

    /// The number of permits currently held, that is, of calls in
    /// flight.
    pub open spec fn in_flight(self) -> nat {
        (self.capacity() - self.available()) as nat
    }

    /// A pool is well formed when it has at least one permit and no more
    /// are available than exist.
    pub open spec fn wf(self) -> bool {
        self.available() <= self.capacity() && self.capacity() >= 1
    }

    /// Makes a pool with every permit available.
    pub fn new(max_concurrent_requests: usize) -> (p: PermitPool)
        requires
            max_concurrent_requests >= 1,
        ensures
            p.wf(),
            p.capacity() == max_concurrent_requests,
            p.available() == max_concurrent_requests,
            p.in_flight() == 0,
    {
        PermitPool { capacity: max_concurrent_requests, available: max_concurrent_requests }
    }

    /// Takes one permit when one is available; otherwise leaves the pool
    /// unchanged, and the caller must wait. In-flight calls never exceed
    /// the capacity.
    pub fn try_acquire(&mut self) -> (granted: bool)
        requires
            old(self).wf(),
        ensures
            final(self).wf(),
            final(self).capacity() == old(self).capacity(),
            granted == (old(self).available() > 0),
            granted ==> final(self).available() == old(self).available() - 1,
            granted ==> final(self).in_flight() == old(self).in_flight() + 1,
            !granted ==> *final(self) == *old(self),
            final(self).in_flight() <= final(self).capacity(),
    {
        if self.available > 0 {
            self.available = self.available - 1;
            true
        } else {
            false
        }
    }

    /// Returns one held permit to the pool. A call releases its permit
    /// only once it has completed, whether with a body, a timeout, or a
    /// transport error.
    pub fn release(&mut self)
        requires
            old(self).wf(),
            old(self).in_flight() > 0,
        ensures
            final(self).wf(),
            final(self).capacity() == old(self).capacity(),
            final(self).available() == old(self).available() + 1,
            final(self).in_flight() == old(self).in_flight() - 1,
    {
        self.available = self.available + 1;
    }
}

/// One step of the pool's history: a task asking for a permit, or a task
/// giving one back.
#[derive(Clone, Copy, Debug, PartialEq, Eq, Structural)]
pub enum PoolEvent {
    /// A task asks for a permit; it is granted only while a permit is
    /// available.
    Acquire,
    /// A task returns its permit; it has effect only while a permit is
    /// held.
    Release,
}

/// The number of permits held after the pool of the given capacity has
/// seen `events`, starting from an idle pool. An `Acquire` while nothing
/// is available, or a `Release` while nothing is held, changes nothing.
pub open spec fn in_flight_after(capacity: nat, events: Seq<PoolEvent>) -> nat
    decreases events.len(),
{
    if events.len() == 0 {
        0
    } else {
        let prev = in_flight_after(capacity, events.drop_last());
        match events.last() {
            PoolEvent::Acquire => if prev < capacity {
                prev + 1
            } else {
                prev
            },
            PoolEvent::Release => if prev > 0 {
                (prev - 1) as nat
            } else {
                prev
            },
        }
    }
}

/// At no instant of any history are more calls in flight than the pool's
/// capacity: every prefix of every event sequence keeps the count within
/// the bound.
pub proof fn lemma_permit_bound(capacity: nat, events: Seq<PoolEvent>)
    ensures
        in_flight_after(capacity, events) <= capacity,
    decreases events.len(),
{
    if events.len() > 0 {
        lemma_permit_bound(capacity, events.drop_last());
    }
}

/// Replays a pool history and reports how many permits are held at its
/// end.
pub fn run_pool(max_concurrent_requests: usize, events: &Vec<PoolEvent>) -> (held: usize)
    requires
        max_concurrent_requests >= 1,
    ensures
        held == in_flight_after(max_concurrent_requests as nat, events@),
        held <= max_concurrent_requests,
{
    let mut pool = PermitPool::new(max_concurrent_requests);
    let mut i: usize = 0;
    while i < events.len()
        invariant
            0 <= i <= events@.len(),
            pool.wf(),
            pool.capacity() == max_concurrent_requests,
            pool.in_flight() == in_flight_after(max_concurrent_requests as nat, events@.take(i as int)),
        decreases events@.len() - i,
    {
        proof {
            assert(events@.take(i + 1).drop_last() =~= events@.take(i as int));
            assert(events@.take(i + 1).last() == events@[i as int]);
        }
        match events[i] {
            PoolEvent::Acquire => {
                let _ = pool.try_acquire();
            },
            PoolEvent::Release => {
                if pool.capacity > pool.available {
                    pool.release();
                }
            },
        }
        i = i + 1;
    }
    proof {
        assert(events@.take(events@.len() as int) =~= events@);
    }
    pool.capacity - pool.available
}

} // verus!
