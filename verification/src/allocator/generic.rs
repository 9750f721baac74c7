//! A generic allocator, wrapping known implementors of allocation.
//!
//! This type is useful in settings where it is difficult to write code
//! generic in the allocator, for example closures whose type arguments must
//! be specified.

use vstd::prelude::*;
use crate::allocator::binary::{Binary, ProcessBinary, ProcessBinaryBuilder};
use crate::allocator::process::Process;
use crate::allocator::thread::Thread;
use crate::allocator::{Puller, Pusher};
use crate::communication::{Pull, Push};
use crate::container::Container;

verus! {

/// Enumerates known implementors of allocation.
/// Passes method calls on to members.
#[verifier::reject_recursive_types(T)]
pub enum Generic<T: Container> {
    /// Intra-thread allocator.
    Thread(Thread),
    /// Inter-thread, intra-process allocator.
    Process(Process<T>),
    /// Inter-process allocator.
    Binary(Binary<T>),
    /// Inter-process allocator with a fast path within the process.
    ProcessBinary(ProcessBinary<T>),
}

impl<T: Container> Generic<T> {
    /// The index of the worker.
    pub open spec fn spec_index(&self) -> usize {
        match self {
            Generic::Thread(_) => 0,
            Generic::Process(p) => p.meeting().spec_index(),
            Generic::Binary(b) => b.meeting().spec_index(),
            Generic::ProcessBinary(pb) => pb.meeting().spec_index(),
        }
    }

    /// The number of workers.
    pub open spec fn spec_peers(&self) -> usize {
        match self {
            Generic::Thread(_) => 1,
            Generic::Process(p) => p.meeting().spec_peers(),
            Generic::Binary(b) => b.meeting().spec_peers(),
            Generic::ProcessBinary(pb) => pb.meeting().spec_peers(),
        }
    }

    /// The number that the next channel is known by, where channels have
    /// numbers.
    pub open spec fn next_identifier(&self) -> Option<usize> {
        match self {
            Generic::Thread(_) => None,
            Generic::Process(p) => Some(p.meeting().allocated()),
            Generic::Binary(b) => Some(b.meeting().allocated()),
            Generic::ProcessBinary(pb) => Some(pb.meeting().allocated()),
        }
    }

    /// The allocator holds what it needs between calls.
    pub open spec fn inv(&self) -> bool {
        match self {
            Generic::Thread(_) => true,
            Generic::Process(p) => p.inv(),
            Generic::Binary(b) => b.inv(),
            Generic::ProcessBinary(pb) => pb.inv(),
        }
    }

    /// The index of the worker out of `(0..self.peers())`.
    pub fn index(&self) -> (index: usize)
        requires
            self.inv(),
        ensures
            index == self.spec_index(),
            index < self.spec_peers(),
    {
        match self {
            Generic::Thread(t) => t.index(),
            Generic::Process(p) => p.index(),
            Generic::Binary(b) => b.index(),
            Generic::ProcessBinary(pb) => pb.index(),
        }
    }

    /// The number of workers.
    pub fn peers(&self) -> (peers: usize)
        ensures
            peers == self.spec_peers(),
    {
        match self {
            Generic::Thread(t) => t.peers(),
            Generic::Process(p) => p.peers(),
            Generic::Binary(b) => b.peers(),
            Generic::ProcessBinary(pb) => pb.peers(),
        }
    }

    /// Constructs several send endpoints and one receive endpoint: a pusher
    /// to every worker, by index, and the puller of this worker, none of
    /// which anything has passed yet. Every call gives a channel.
    pub fn allocate(&mut self) -> (channel: (Vec<Pusher<T>>, Puller<T>, Option<usize>))
        requires
            old(self).inv(),
        ensures
            final(self).inv(),
            final(self).spec_index() == old(self).spec_index(),
            final(self).spec_peers() == old(self).spec_peers(),
            final(self).next_identifier() == match old(self).next_identifier() {
                Some(number) => Some(
                    if number == usize::MAX {
                        number
                    } else {
                        (number + 1) as usize
                    },
                ),
                None => None,
            },
            channel.0@.len() == old(self).spec_peers(),
            forall|target: int|
                0 <= target < channel.0@.len() ==> (#[trigger] channel.0@[target]).pushed()
                    == Seq::<Option<T>>::empty(),
            channel.1.inv(),
            channel.1.sources() == old(self).spec_peers(),
            channel.1.pulled() == Seq::<Option<T>>::empty(),
            channel.1.asked() == Seq::<usize>::empty(),
            channel.2 == old(self).next_identifier(),
    {
        match self {
            Generic::Thread(t) => t.allocate(),
            Generic::Process(p) => p.allocate(),
            Generic::Binary(b) => b.allocate(),
            Generic::ProcessBinary(pb) => pb.allocate(),
        }
    }

    /// Allocates a thread-local one-to-one channel, which no other worker
    /// takes part in and nothing has passed yet.
    pub fn pipeline(&mut self) -> (ends: (Pusher<T>, Puller<T>))
        ensures
            *final(self) == *old(self),
            ends.0.inv(),
            ends.0.pushed() == Seq::<Option<T>>::empty(),
            ends.1.inv(),
            ends.1.pulled() == Seq::<Option<T>>::empty(),
    {
        let mut local = Thread::new();
        local.pipeline()
    }

    /// The hook before a scheduling step: only an allocator with relays to
    /// a transport works here, and lets them bring in what has arrived. The
    /// allocator itself is as it was, whatever its kind.
    pub fn pre_work(&mut self)
        ensures
            *final(self) == *old(self),
    {
        match self {
            Generic::ProcessBinary(pb) => {
                let _ = pb.pre_work();
            },
            _ => {},
        }
    }

    /// The hook after a scheduling step: only an allocator with relays to a
    /// transport works here, and lets them take out what was produced. The
    /// allocator itself is as it was, whatever its kind.
    pub fn post_work(&mut self)
        ensures
            *final(self) == *old(self),
    {
        match self {
            Generic::ProcessBinary(pb) => {
                let _ = pb.post_work();
            },
            _ => {},
        }
    }
}

/// Enumerates known implementors of allocation, before they are built.
#[verifier::reject_recursive_types(T)]
pub enum GenericBuilder<T: Container> {
    /// Builder for the intra-thread allocator.
    Thread(Thread),
    /// Builder for the inter-thread, intra-process allocator.
    Process(Process<T>),
    /// Builder for the inter-process allocator.
    Binary(Binary<T>),
    /// Builder for the inter-process allocator with a fast path.
    ProcessBinary(ProcessBinaryBuilder<T>),
}

impl<T: Container> GenericBuilder<T> {
    /// Builds the allocator of the same kind, with the same channels.
    pub fn build(self) -> (allocator: Generic<T>)
        ensures
            match (self, allocator) {
                (GenericBuilder::Thread(t), Generic::Thread(built)) => built == t,
                (GenericBuilder::Process(p), Generic::Process(built)) => built == p,
                (GenericBuilder::Binary(b), Generic::Binary(built)) => built == b,
                (GenericBuilder::ProcessBinary(pb), Generic::ProcessBinary(built)) => built.meeting()
                    == pb.meeting() && built.relays() == pb.relays() && built.limit() == pb.limit(),
                _ => false,
            },
    {
        match self {
            GenericBuilder::Thread(t) => Generic::Thread(t),
            GenericBuilder::Process(p) => Generic::Process(p),
            GenericBuilder::Binary(b) => Generic::Binary(b),
            GenericBuilder::ProcessBinary(pb) => Generic::ProcessBinary(pb.build()),
        }
    }
}

} // verus!
