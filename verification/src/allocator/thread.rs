//! Intra-thread communication.

use vstd::prelude::*;
use crate::allocator::{wire, Endpoints, Puller, Pusher};
use crate::communication::{Pull, Push};
use crate::container::Container;

verus! {

/// An allocator for intra-thread communication: one worker, which talks to
/// itself.
pub struct Thread;

impl Thread {
    /// The allocator of a worker without peers.
    pub fn new() -> (allocator: Self) {
        Thread
    }

    /// The index of the worker out of `(0..self.peers())`.
    pub fn index(&self) -> (index: usize)
        ensures
            index == 0,
    {
        0
    }

    /// The number of workers.
    pub fn peers(&self) -> (peers: usize)
        ensures
            peers == 1,
    {
        1
    }

    /// Allocates a thread-local channel: a pusher and a puller at the two
    /// ends of one queue, which nothing has passed yet.
    pub fn pipeline<T: Container>(&mut self) -> (ends: (Pusher<T>, Puller<T>))
        ensures
            ends.0.inv(),
            ends.0.pushed() == Seq::<Option<T>>::empty(),
            ends.1.inv(),
            ends.1.pulled() == Seq::<Option<T>>::empty(),
    {
        let mut endpoints: Vec<Endpoints<T>> = wire::<T>(1);
        let Endpoints { mut pushers, puller } = endpoints.remove(0);
        let pusher = pushers.remove(0);
        (pusher, puller)
    }

    /// Constructs several send endpoints and one receive endpoint: here one
    /// of each, and no identifier.
    pub fn allocate<T: Container>(&mut self) -> (channel: (Vec<Pusher<T>>, Puller<T>, Option<usize>))
        ensures
            channel.0@.len() == 1,
            channel.0@[0].pushed() == Seq::<Option<T>>::empty(),
            channel.1.inv(),
            channel.1.sources() == 1,
            channel.1.pulled() == Seq::<Option<T>>::empty(),
            channel.1.asked() == Seq::<usize>::empty(),
            channel.2 is None,
    {
        let mut endpoints: Vec<Endpoints<T>> = wire::<T>(1);
        let Endpoints { pushers, puller } = endpoints.remove(0);
        (pushers, puller, None)
    }
}

} // verus!
