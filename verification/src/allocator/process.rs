//! Typed inter-thread, intra-process channels.
//!
//! The workers meet on queues that are made with them: one queue for every
//! pair of workers, on which the first hands the second the links of the
//! channels it makes, in the order it makes them. Every worker makes its
//! channels in the same order, so the links of one channel meet.

use vstd::prelude::*;
use crossbeam_channel::{Receiver, Sender};
use crate::allocator::{
    promise_futures, reversed, try_send, unbounded, Inlet, Link, Puller, Pusher,
};
use crate::communication::{Pull, Push};
use crate::container::Container;
use crate::initialize::AllocatorInitError;

verus! {

/// The place where one worker meets the others: the queues on which it
/// hands out the links of the channels it makes, and those on which the
/// links of the others arrive.
#[verifier::reject_recursive_types(T)]
pub struct Meeting<T: Container> {
    index: usize,
    peers: usize,
    allocated: usize,
    outgoing: Vec<Sender<Link<T>>>,
    turns: Vec<Receiver<Receiver<Link<T>>>>,
}

impl<T: Container> Meeting<T> {
    /// The index of the worker.
    pub closed spec fn spec_index(&self) -> usize {
        self.index
    }

    /// The number of workers.
    pub closed spec fn spec_peers(&self) -> usize {
        self.peers
    }

    /// The number of channels allocated so far, as far as the machine's
    /// word counts them.
    pub closed spec fn allocated(&self) -> usize {
        self.allocated
    }

    /// The worker is one of its peers and has a queue to and from each.
    pub closed spec fn inv(&self) -> bool {
        &&& self.index < self.peers
        &&& self.outgoing@.len() == self.peers
        &&& self.turns@.len() == self.peers
    }

    /// The meeting place of worker `index` of `peers`, which hands out its
    /// links on `outgoing`, one queue for each target worker, and finds the
    /// links of the others on `incoming`, one queue for each source worker.
    /// There is no meeting place for a worker that is not among the peers,
    /// and none without one queue for every worker in each direction.
    pub fn new(
        index: usize,
        peers: usize,
        outgoing: Vec<Sender<Link<T>>>,
        incoming: Vec<Receiver<Link<T>>>,
    ) -> (meeting: Result<Self, AllocatorInitError>)
        ensures
            match meeting {
                Ok(place) => {
                    &&& index < peers
                    &&& outgoing@.len() == peers
                    &&& incoming@.len() == peers
                    &&& place.inv()
                    &&& place.spec_index() == index
                    &&& place.spec_peers() == peers
                    &&& place.allocated() == 0
                },
                Err(error) => if index >= peers {
                    error == AllocatorInitError::UnknownWorker
                } else {
                    error == AllocatorInitError::WrongWidth && (outgoing@.len() != peers
                        || incoming@.len() != peers)
                },
            },
    {
        if index >= peers {
            return Err(AllocatorInitError::UnknownWorker);
        }
        if outgoing.len() != peers || incoming.len() != peers {
            return Err(AllocatorInitError::WrongWidth);
        }
        let mut turns: Vec<Receiver<Receiver<Link<T>>>> = Vec::new();
        let ghost all = incoming@;
        for supply in it: incoming
            invariant
                it.seq() == all,
                turns@.len() == it.index(),
        {
            let (first, turn) = unbounded::<Receiver<Link<T>>>();
            let _ = try_send(&first, supply);
            turns.push(turn);
        }
        Ok(Meeting { index, peers, allocated: 0, outgoing, turns })
    }

    /// The index of the worker out of `(0..self.peers())`.
    pub fn index(&self) -> (index: usize)
        requires
            self.inv(),
        ensures
            index == self.spec_index(),
            index < self.spec_peers(),
    {
        self.index
    }

    /// The number of workers.
    pub fn peers(&self) -> (peers: usize)
        ensures
            peers == self.spec_peers(),
    {
        self.peers
    }

    /// Makes the endpoints of the next channel: a pusher to every worker,
    /// whose link is handed to that worker, and a puller that takes the
    /// links of the others as they arrive. Nothing has passed the endpoints
    /// yet. The channel is known by the number of channels made before.
    pub fn allocate(&mut self) -> (channel: (Vec<Pusher<T>>, Puller<T>, Option<usize>))
        requires
            old(self).inv(),
        ensures
            final(self).inv(),
            final(self).spec_index() == old(self).spec_index(),
            final(self).spec_peers() == old(self).spec_peers(),
            final(self).allocated() == if old(self).allocated() == usize::MAX {
                usize::MAX
            } else {
                (old(self).allocated() + 1) as usize
            },
            channel.0@.len() == old(self).spec_peers(),
            forall|target: int|
                0 <= target < channel.0@.len() ==> (#[trigger] channel.0@[target]).pushed()
                    == Seq::<Option<T>>::empty(),
            channel.1.inv(),
            channel.1.sources() == old(self).spec_peers(),
            channel.1.pulled() == Seq::<Option<T>>::empty(),
            channel.1.asked() == Seq::<usize>::empty(),
            channel.2 == Some(old(self).allocated()),
    {
        let mut pushers: Vec<Pusher<T>> = Vec::new();
        let mut target: usize = 0;
        while target < self.peers
            invariant
                target <= self.peers,
                self.outgoing@.len() == self.peers,
                pushers@.len() == target,
                forall|i: int|
                    0 <= i < pushers@.len() ==> (#[trigger] pushers@[i]).pushed() == Seq::<
                        Option<T>,
                    >::empty(),
            decreases self.peers - target,
        {
            let (data_in, data_out) = unbounded::<T>();
            let (shells_in, shells_out) = unbounded::<T::Allocation>();
            let _ = try_send(&self.outgoing[target], Link::new(data_out, shells_in));
            pushers.push(Pusher::new(data_in, shells_out));
            target += 1;
        }
        let mut waiting: Vec<Receiver<Receiver<Link<T>>>> = Vec::new();
        std::mem::swap(&mut self.turns, &mut waiting);
        let mut inlets: Vec<Inlet<T>> = Vec::new();
        let ghost all = waiting@;
        for turn in it: waiting
            invariant
                it.seq() == all,
                inlets@.len() == it.index(),
                self.turns@.len() == it.index(),
                self.index == old(self).index,
                self.peers == old(self).peers,
                self.allocated == old(self).allocated,
                self.outgoing@.len() == self.peers,
        {
            let (next, after) = unbounded::<Receiver<Link<T>>>();
            inlets.push(Inlet::waiting(turn, next));
            self.turns.push(after);
        }
        let identifier: usize = self.allocated;
        if identifier < usize::MAX {
            self.allocated = identifier + 1;
        }
        (pushers, Puller::from_inlets(inlets), Some(identifier))
    }
}

/// An allocator for inter-thread, intra-process communication.
#[verifier::reject_recursive_types(T)]
pub struct Process<T: Container> {
    meeting: Meeting<T>,
}

impl<T: Container> Process<T> {
    /// The meeting place of the worker.
    pub closed spec fn meeting(&self) -> Meeting<T> {
        self.meeting
    }

    /// The allocator holds what it needs between calls.
    pub open spec fn inv(&self) -> bool {
        self.meeting().inv()
    }

    /// Allocates the allocators of `peers` workers in one process, with a
    /// queue for every pair of them to meet on.
    pub fn new_vector(peers: usize) -> (workers: Vec<Process<T>>)
        ensures
            workers@.len() == peers,
            forall|worker: int|
                0 <= worker < peers ==> {
                    let allocator = #[trigger] workers@[worker];
                    &&& allocator.inv()
                    &&& allocator.meeting().spec_index() == worker
                    &&& allocator.meeting().spec_peers() == peers
                    &&& allocator.meeting().allocated() == 0
                },
    {
        let (mut senders, mut recvers) = promise_futures::<Link<T>>(peers, peers);
        let mut backwards: Vec<Process<T>> = Vec::new();
        while senders.len() > 0
            invariant
                senders@.len() == recvers@.len(),
                senders@.len() + backwards@.len() == peers,
                forall|i: int| 0 <= i < senders@.len() ==> (#[trigger] senders@[i])@.len() == peers,
                forall|i: int| 0 <= i < recvers@.len() ==> (#[trigger] recvers@[i])@.len() == peers,
                forall|i: int|
                    0 <= i < backwards@.len() ==> {
                        let allocator = #[trigger] backwards@[i];
                        &&& allocator.inv()
                        &&& allocator.meeting().spec_index() == peers - 1 - i
                        &&& allocator.meeting().spec_peers() == peers
                        &&& allocator.meeting().allocated() == 0
                    },
            decreases senders@.len(),
        {
            let index: usize = senders.len() - 1;
            match (senders.pop(), recvers.pop()) {
                (Some(outgoing), Some(incoming)) => {
                    match Meeting::new(index, peers, outgoing, incoming) {
                        Ok(meeting) => {
                            backwards.push(Process { meeting });
                        },
                        Err(_) => {
                            assert(false);
                        },
                    }
                },
                _ => {
                    assert(false);
                },
            }
        }
        let workers = reversed(backwards);
        workers
    }

    /// The index of the worker out of `(0..self.peers())`.
    pub fn index(&self) -> (index: usize)
        requires
            self.inv(),
        ensures
            index == self.meeting().spec_index(),
            index < self.meeting().spec_peers(),
    {
        self.meeting.index()
    }

    /// The number of workers.
    pub fn peers(&self) -> (peers: usize)
        ensures
            peers == self.meeting().spec_peers(),
    {
        self.meeting.peers()
    }

    /// Constructs several send endpoints and one receive endpoint: a pusher
    /// to every worker and the puller of this worker, for the next channel.
    pub fn allocate(&mut self) -> (channel: (Vec<Pusher<T>>, Puller<T>, Option<usize>))
        requires
            old(self).inv(),
        ensures
            final(self).inv(),
            final(self).meeting().spec_index() == old(self).meeting().spec_index(),
            final(self).meeting().spec_peers() == old(self).meeting().spec_peers(),
            final(self).meeting().allocated() == if old(self).meeting().allocated() == usize::MAX {
                usize::MAX
            } else {
                (old(self).meeting().allocated() + 1) as usize
            },
            channel.0@.len() == old(self).meeting().spec_peers(),
            forall|target: int|
                0 <= target < channel.0@.len() ==> (#[trigger] channel.0@[target]).pushed()
                    == Seq::<Option<T>>::empty(),
            channel.1.inv(),
            channel.1.sources() == old(self).meeting().spec_peers(),
            channel.1.pulled() == Seq::<Option<T>>::empty(),
            channel.1.asked() == Seq::<usize>::empty(),
            channel.2 == Some(old(self).meeting().allocated()),
    {
        self.meeting.allocate()
    }
}

} // verus!
