//! The messages that travel along dataflow edges, and the endpoints that
//! carry them.

use vstd::prelude::*;
use crate::container::{Container, IntoAllocated};
use crate::message::RefOrMut;
use crate::progress::Timestamp;

pub mod pact;
pub mod pullers;
pub mod pushers;

verus! {

/// A batch of records with the time they belong to.
pub struct Message<T, D> {
    /// The timestamp associated with the message.
    pub time: T,
    /// The data in the message.
    pub data: D,
    /// The source worker.
    pub from: usize,
    /// A sequence number for this worker-to-worker stream.
    pub seq: usize,
}

/// A message as it travels between endpoints.
pub type BundleCore<T, D> = Message<T, D>;

/// The hollow form of a message: the allocation of its data.
pub struct MessageAllocation<A> {
    /// The allocation of the data.
    pub data: A,
}

impl<T, D> Message<T, D> {
    /// Creates a new message.
    pub fn new(time: T, data: D, from: usize, seq: usize) -> (message: Self)
        ensures
            message == (Message { time, data, from, seq }),
    {
        Message { time, data, from, seq }
    }
}

impl<T, D: Container> Container for Message<T, D> {
    type Allocation = MessageAllocation<D::Allocation>;

    open spec fn spec_len(&self) -> nat {
        self.data.spec_len()
    }

    open spec fn replica(source: &Self, copy: &Self) -> bool {
        &&& copy.time == source.time
        &&& copy.from == source.from
        &&& copy.seq == source.seq
        &&& D::replica(&source.data, &copy.data)
    }

    /// The shell of a message is the shell of its data.
    open spec fn hollowed(&self, shell: &MessageAllocation<D::Allocation>) -> bool {
        self.data.hollowed(&shell.data)
    }

    fn len(&self) -> (n: usize) {
        self.data.len()
    }

    fn is_empty(&self) -> (empty: bool) {
        self.data.is_empty()
    }

    fn hollow(self) -> (shell: MessageAllocation<D::Allocation>) {
        MessageAllocation { data: self.data.hollow() }
    }
}

impl<T: Timestamp, D: Container, A: IntoAllocated<D>> IntoAllocated<Message<T, D>> for MessageAllocation<A> {
    open spec fn rebuilt(source: Message<T, D>, assembled: Message<T, D>) -> bool {
        &&& assembled.time == source.time
        &&& assembled.from == source.from
        &&& assembled.seq == source.seq
        &&& A::rebuilt(source.data, assembled.data)
    }

    fn assemble(self, source: RefOrMut<Message<T, D>>) -> (assembled: Message<T, D>) {
        match source {
            RefOrMut::Ref(reference) => Message {
                time: reference.time,
                data: self.data.assemble(RefOrMut::Ref(&reference.data)),
                from: reference.from,
                seq: reference.seq,
            },
            RefOrMut::Mut(reference) => Message {
                time: reference.time,
                data: self.data.assemble(RefOrMut::Mut(&mut reference.data)),
                from: reference.from,
                seq: reference.seq,
            },
        }
    }

    fn assemble_new(source: RefOrMut<Message<T, D>>) -> (assembled: Message<T, D>) {
        match source {
            RefOrMut::Ref(reference) => Message {
                time: reference.time,
                data: A::assemble_new(RefOrMut::Ref(&reference.data)),
                from: reference.from,
                seq: reference.seq,
            },
            RefOrMut::Mut(reference) => Message {
                time: reference.time,
                data: A::assemble_new(RefOrMut::Mut(&mut reference.data)),
                from: reference.from,
                seq: reference.seq,
            },
        }
    }
}

} // verus!
