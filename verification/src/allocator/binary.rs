//! Allocators whose channels lead out of the process.
//!
//! The transport that carries the elements between processes is not part of
//! this library: whoever runs it holds the other ends of the queues that
//! the worker meets the others on.

use vstd::prelude::*;
use crossbeam_channel::{Receiver, Sender};
use crate::allocator::process::Meeting;
use crate::allocator::{try_recv, try_send, Puller, Pusher};
use crate::communication::{Pull, Push};
use crate::container::Container;

verus! {

/// An allocator for cross-process communication: every channel leads to the
/// transport.
#[verifier::reject_recursive_types(T)]
pub struct Binary<T: Container> {
    meeting: Meeting<T>,
}

impl<T: Container> Binary<T> {
    /// The meeting place of the worker.
    pub closed spec fn meeting(&self) -> Meeting<T> {
        self.meeting
    }

    /// The allocator holds what it needs between calls.
    pub open spec fn inv(&self) -> bool {
        self.meeting().inv()
    }

    /// The allocator of a worker that meets the others at `meeting`.
    pub fn new(meeting: Meeting<T>) -> (allocator: Self)
        ensures
            allocator.meeting() == meeting,
    {
        Binary { meeting }
    }

    /// The index of the worker out of `(0..self.peers())`.
    pub fn index(&self) -> (index: usize)
        requires
            self.inv(),
        ensures
            index == self.meeting().spec_index(),
            index < self.meeting().spec_peers(),
    {
        self.meeting.index()
    }

    /// The number of workers.
    pub fn peers(&self) -> (peers: usize)
        ensures
            peers == self.meeting().spec_peers(),
    {
        self.meeting.peers()
    }

    /// Constructs several send endpoints and one receive endpoint: a pusher
    /// to every worker and the puller of this worker, for the next channel.
    pub fn allocate(&mut self) -> (channel: (Vec<Pusher<T>>, Puller<T>, Option<usize>))
        requires
            old(self).inv(),
        ensures
            final(self).inv(),
            final(self).meeting().spec_index() == old(self).meeting().spec_index(),
            final(self).meeting().spec_peers() == old(self).meeting().spec_peers(),
            final(self).meeting().allocated() == if old(self).meeting().allocated() == usize::MAX {
                usize::MAX
            } else {
                (old(self).meeting().allocated() + 1) as usize
            },
            channel.0@.len() == old(self).meeting().spec_peers(),
            forall|target: int|
                0 <= target < channel.0@.len() ==> (#[trigger] channel.0@[target]).pushed()
                    == Seq::<Option<T>>::empty(),
            channel.1.inv(),
            channel.1.sources() == old(self).meeting().spec_peers(),
            channel.1.pulled() == Seq::<Option<T>>::empty(),
            channel.1.asked() == Seq::<usize>::empty(),
            channel.2 == Some(old(self).meeting().allocated()),
    {
        self.meeting.allocate()
    }
}

/// A queue that is emptied into another at the boundary of a step.
#[verifier::reject_recursive_types(T)]
pub struct Relay<T> {
    from: Receiver<T>,
    to: Sender<T>,
}

impl<T> Relay<T> {
    /// The queue that the relay empties and the queue that it fills.
    pub closed spec fn ends(&self) -> (Receiver<T>, Sender<T>) {
        (self.from, self.to)
    }

    /// A relay that moves what arrives on `from` into `to`.
    pub fn new(from: Receiver<T>, to: Sender<T>) -> (relay: Self)
        ensures
            relay.ends() == (from, to),
    {
        Relay { from, to }
    }

    /// Moves what waits in the first queue into the second, at most `limit`
    /// elements, and returns the number of elements moved.
    pub fn forward(&self, limit: usize) -> (moved: usize)
        ensures
            moved <= limit,
    {
        let mut moved: usize = 0;
        while moved < limit
            invariant
                moved <= limit,
            decreases limit - moved,
        {
            match try_recv(&self.from) {
                Some(element) => {
                    let _ = try_send(&self.to, element);
                    moved += 1;
                },
                None => {
                    return moved;
                },
            }
        }
        moved
    }
}

/// The parts of an allocator for workers of several processes: the
/// meeting place, and the relays to and from the transport.
#[verifier::reject_recursive_types(T)]
pub struct ProcessBinaryBuilder<T: Container> {
    meeting: Meeting<T>,
    inbound: Vec<Relay<T>>,
    outbound: Vec<Relay<T>>,
    limit: usize,
}

impl<T: Container> ProcessBinaryBuilder<T> {
    /// The meeting place of the worker.
    pub closed spec fn meeting(&self) -> Meeting<T> {
        self.meeting
    }

    /// The numbers of relays from and to the transport.
    pub closed spec fn relays(&self) -> (nat, nat) {
        (self.inbound@.len(), self.outbound@.len())
    }

    /// The number of elements that a relay moves in one step at most.
    pub closed spec fn limit(&self) -> usize {
        self.limit
    }

    /// The parts of an allocator: the meeting place, the relays that
    /// bring elements in from the transport and those that take elements out
    /// to it, and the number of elements that a relay moves in one step at
    /// most.
    pub fn new(meeting: Meeting<T>, inbound: Vec<Relay<T>>, outbound: Vec<Relay<T>>, limit: usize) -> (builder: Self)
        ensures
            builder.meeting() == meeting,
            builder.relays() == (inbound@.len(), outbound@.len()),
            builder.limit() == limit,
    {
        ProcessBinaryBuilder { meeting, inbound, outbound, limit }
    }

    /// Builds the allocator.
    pub fn build(self) -> (allocator: ProcessBinary<T>)
        ensures
            allocator.meeting() == self.meeting(),
            allocator.relays() == self.relays(),
            allocator.limit() == self.limit(),
    {
        ProcessBinary {
            meeting: self.meeting,
            inbound: self.inbound,
            outbound: self.outbound,
            limit: self.limit,
        }
    }
}

/// An allocator for workers of several processes: channels within the
/// process, and relays that carry elements to and from the transport at the
/// boundaries of each step.
#[verifier::reject_recursive_types(T)]
pub struct ProcessBinary<T: Container> {
    meeting: Meeting<T>,
    inbound: Vec<Relay<T>>,
    outbound: Vec<Relay<T>>,
    limit: usize,
}

impl<T: Container> ProcessBinary<T> {
    /// The meeting place of the worker.
    pub closed spec fn meeting(&self) -> Meeting<T> {
        self.meeting
    }

    /// The numbers of relays from and to the transport.
    pub closed spec fn relays(&self) -> (nat, nat) {
        (self.inbound@.len(), self.outbound@.len())
    }

    /// The allocator holds what it needs between calls.
    pub open spec fn inv(&self) -> bool {
        self.meeting().inv()
    }

    /// The index of the worker out of `(0..self.peers())`.
    pub fn index(&self) -> (index: usize)
        requires
            self.inv(),
        ensures
            index == self.meeting().spec_index(),
            index < self.meeting().spec_peers(),
    {
        self.meeting.index()
    }

    /// The number of workers.
    pub fn peers(&self) -> (peers: usize)
        ensures
            peers == self.meeting().spec_peers(),
    {
        self.meeting.peers()
    }

    /// Constructs several send endpoints and one receive endpoint: a pusher
    /// to every worker and the puller of this worker, for the next channel.
    pub fn allocate(&mut self) -> (channel: (Vec<Pusher<T>>, Puller<T>, Option<usize>))
        requires
            old(self).inv(),
        ensures
            final(self).inv(),
            final(self).relays() == old(self).relays(),
            final(self).limit() == old(self).limit(),
            final(self).meeting().spec_index() == old(self).meeting().spec_index(),
            final(self).meeting().spec_peers() == old(self).meeting().spec_peers(),
            final(self).meeting().allocated() == if old(self).meeting().allocated() == usize::MAX {
                usize::MAX
            } else {
                (old(self).meeting().allocated() + 1) as usize
            },
            channel.0@.len() == old(self).meeting().spec_peers(),
            forall|target: int|
                0 <= target < channel.0@.len() ==> (#[trigger] channel.0@[target]).pushed()
                    == Seq::<Option<T>>::empty(),
            channel.1.inv(),
            channel.1.sources() == old(self).meeting().spec_peers(),
            channel.1.pulled() == Seq::<Option<T>>::empty(),
            channel.1.asked() == Seq::<usize>::empty(),
            channel.2 == Some(old(self).meeting().allocated()),
    {
        self.meeting.allocate()
    }

    /// The number of elements that a relay moves in one step at most.
    pub closed spec fn limit(&self) -> usize {
        self.limit
    }

    /// Before a step: brings in what the transport has delivered, from
    /// every relay at most as many elements as the limit allows. Returns
    /// the number of elements brought in, as far as the machine's word
    /// counts them. The allocator itself is as it was.
    pub fn pre_work(&mut self) -> (moved: usize)
        ensures
            *final(self) == *old(self),
            moved <= old(self).relays().0 * old(self).limit(),
    {
        forward_all(&self.inbound, self.limit)
    }

    /// After a step: takes out to the transport what the step has produced
    /// for other processes, through every relay at most as many elements as
    /// the limit allows. Returns the number of elements taken out, as far
    /// as the machine's word counts them. The allocator itself is as it
    /// was.
    pub fn post_work(&mut self) -> (moved: usize)
        ensures
            *final(self) == *old(self),
            moved <= old(self).relays().1 * old(self).limit(),
    {
        forward_all(&self.outbound, self.limit)
    }
}

/// Lets every relay move at most `limit` elements, and returns the number of
/// elements moved, as far as the machine's word counts them.
fn forward_all<T>(relays: &Vec<Relay<T>>, limit: usize) -> (moved: usize)
    ensures
        moved <= relays@.len() * limit,
{
    let mut moved: usize = 0;
    let mut index: usize = 0;
    while index < relays.len()
        invariant
            index <= relays@.len(),
            moved <= index * limit,
        decreases relays@.len() - index,
    {
        let more: usize = relays[index].forward(limit);
        assert((index + 1) * limit == index * limit + limit) by (nonlinear_arith);
        moved = if more > usize::MAX - moved {
            usize::MAX
        } else {
            moved + more
        };
        index += 1;
    }
    moved
}

} // verus!
