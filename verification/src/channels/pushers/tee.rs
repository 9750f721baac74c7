//! A `Push` implementor with a list of pushers to forward pushes to.

use vstd::prelude::*;
use crate::channels::Message;
use crate::communication::Push;
use crate::container::{Container, IntoAllocated};
use crate::message::RefOrMut;
use crate::progress::Timestamp;

verus! {

/// Whether `handed` is what a tee hands a downstream for `source`: a
/// message with the same time, source and sequence number and a copy of the
/// data, or a flush for a flush.
pub open spec fn copy_of<T, D: Container, A: IntoAllocated<D>>(
    source: Option<Message<T, D>>,
    handed: Option<Message<T, D>>,
) -> bool {
    match (source, handed) {
        (Some(message), Some(copy)) => {
            &&& copy.time == message.time
            &&& copy.from == message.from
            &&& copy.seq == message.seq
            &&& A::rebuilt(message.data, copy.data)
        },
        (None, None) => true,
        _ => false,
    }
}

/// Whether the histories `after` are the histories `before` of the
/// recipients of a tee when `message` has been pushed: every recipient has
/// one more element, the last one the message as it is, each one before it a
/// copy.
pub open spec fn fanned<T, D: Container, A: IntoAllocated<D>>(
    before: Seq<Seq<Option<Message<T, D>>>>,
    after: Seq<Seq<Option<Message<T, D>>>>,
    message: Option<Message<T, D>>,
) -> bool {
    &&& after.len() == before.len()
    &&& forall|i: int|
        0 <= i < before.len() ==> {
            let output = #[trigger] after[i];
            &&& output.len() == before[i].len() + 1
            &&& output.drop_last() == before[i]
            &&& if i == before.len() - 1 {
                output.last() == message
            } else {
                copy_of::<T, D, A>(message, output.last())
            }
        }
}

/// Wraps a list of pushers to forward pushes to.
pub struct TeeCore<T, D: Container, P> {
    buffer: Option<D::Allocation>,
    shared: Vec<P>,
    seen: Ghost<Seq<Option<Message<T, D>>>>,
}

/// [TeeCore] specialized to `Vec`-based container.
pub type Tee<T, D, P> = TeeCore<T, Vec<D>, P>;

/// A list of pushers that collects the recipients of a tee.
pub struct TeeHelper<T, D, P> {
    shared: Vec<P>,
    phantom: core::marker::PhantomData<(T, D)>,
}

impl<T, D: Container, P: Push<Message<T, D>>> TeeHelper<T, D, P> {
    /// What each recipient collected so far has been handed, in the order
    /// the recipients were added.
    pub closed spec fn outputs(&self) -> Seq<Seq<Option<Message<T, D>>>> {
        Seq::new(self.shared@.len(), |i: int| self.shared@[i].pushed())
    }

    /// Every recipient holds what it needs between calls.
    pub closed spec fn inv(&self) -> bool {
        forall|i: int| 0 <= i < self.shared@.len() ==> (#[trigger] self.shared@[i]).inv()
    }

    /// Adds a new `Push` implementor to the list of recipients.
    pub fn add_pusher(&mut self, pusher: P)
        requires
            old(self).inv(),
            pusher.inv(),
        ensures
            final(self).inv(),
            final(self).outputs() == old(self).outputs().push(pusher.pushed()),
    {
        self.shared.push(pusher);
        assert(self.outputs() =~= old(self).outputs().push(pusher.pushed()));
    }
}

impl<T: Timestamp, D: Container, P: Push<Message<T, D>>> TeeCore<T, D, P> where D::Allocation: IntoAllocated<D> {
    /// What each recipient has been handed so far.
    pub closed spec fn outputs(&self) -> Seq<Seq<Option<Message<T, D>>>> {
        Seq::new(self.shared@.len(), |i: int| self.shared@[i].pushed())
    }

    /// Allocates a new pair of `Tee` and `TeeHelper`, both without
    /// recipients.
    pub fn new() -> (pair: (TeeCore<T, D, P>, TeeHelper<T, D, P>))
        ensures
            pair.0.inv(),
            pair.0.pushed() == Seq::<Option<Message<T, D>>>::empty(),
            pair.0.outputs() == Seq::<Seq<Option<Message<T, D>>>>::empty(),
            pair.1.inv(),
            pair.1.outputs() == Seq::<Seq<Option<Message<T, D>>>>::empty(),
    {
        let port = TeeCore { buffer: None, shared: Vec::new(), seen: Ghost(Seq::empty()) };
        let helper = TeeHelper { shared: Vec::new(), phantom: core::marker::PhantomData };
        assert(port.outputs() =~= Seq::<Seq<Option<Message<T, D>>>>::empty());
        assert(helper.outputs() =~= Seq::<Seq<Option<Message<T, D>>>>::empty());
        (port, helper)
    }

    /// Moves the recipients that `helper` has collected behind those of the
    /// tee.
    pub fn connect(&mut self, helper: &mut TeeHelper<T, D, P>)
        requires
            old(self).inv(),
            old(helper).inv(),
        ensures
            final(self).inv(),
            final(self).pushed() == old(self).pushed(),
            final(self).outputs() == old(self).outputs() + old(helper).outputs(),
            final(helper).inv(),
            final(helper).outputs() == Seq::<Seq<Option<Message<T, D>>>>::empty(),
    {
        self.shared.append(&mut helper.shared);
        assert(self.outputs() =~= old(self).outputs() + old(helper).outputs());
        assert(helper.outputs() =~= Seq::<Seq<Option<Message<T, D>>>>::empty());
    }
}

impl<T: Timestamp, D: Container, P: Push<Message<T, D>>> Push<Message<T, D>> for TeeCore<T, D, P> where D::Allocation: IntoAllocated<D> {
    closed spec fn inv(&self) -> bool {
        forall|i: int| 0 <= i < self.shared@.len() ==> (#[trigger] self.shared@[i]).inv()
    }

    closed spec fn pushed(&self) -> Seq<Option<Message<T, D>>> {
        self.seen@
    }

    /// Every recipient is handed the element: the last one a message as it
    /// is, each one before it a copy.
    open spec fn pushes(before: &Self, message: Option<Message<T, D>>, after: &Self) -> bool {
        fanned::<T, D, D::Allocation>(before.outputs(), after.outputs(), message)
    }

    /// Hands the element to every recipient: the last one gets a message as
    /// it is, each one before it a copy; a flush goes to all. Without
    /// recipients the element is dropped.
    fn push(&mut self, message: Option<Message<T, D>>, allocation: &mut Option<<Message<T, D> as Container>::Allocation>)
        ensures
            fanned::<T, D, D::Allocation>(old(self).outputs(), final(self).outputs(), message),
    {
        proof {
            self.seen@ = self.seen@.push(message);
        }
        let count: usize = self.shared.len();
        match message {
            Some(message) => {
                let mut index: usize = 1;
                while index < count
                    invariant
                        1 <= index,
                        count >= 1 ==> index <= count,
                        count == self.shared@.len(),
                        count == old(self).shared@.len(),
                        self.seen@ == old(self).seen@.push(Some(message)),
                        forall|i: int| 0 <= i < count ==> (#[trigger] self.shared@[i]).inv(),
                        forall|i: int|
                            index - 1 <= i < count ==> (#[trigger] self.shared@[i]).pushed() 
                                == old(self).shared@[i].pushed(),
                        forall|i: int|
                            0 <= i < index - 1 && i < count ==> {
                                let output = (#[trigger] self.shared@[i]).pushed();
                                &&& output.len() == old(self).shared@[i].pushed().len() + 1
                                &&& output.drop_last() == old(self).shared@[i].pushed()
                                &&& copy_of::<T, D, D::Allocation>(Some(message), output.last())
                            },
                    decreases count - index,
                {
                    let data: D = RefOrMut::Ref(&message.data).assemble(&mut self.buffer);
                    let copy = Message {
                        time: message.time,
                        data,
                        from: message.from,
                        seq: message.seq,
                    };
                    let mut returned: Option<<Message<T, D> as Container>::Allocation> = None;
                    let ghost before = self.shared@[index - 1].pushed();
                    self.shared[index - 1].push(Some(copy), &mut returned);
                    assert(self.shared@[index - 1].pushed().drop_last() =~= before);
                    match returned {
                        Some(shell) => {
                            self.buffer = Some(shell.data);
                        },
                        None => {},
                    }
                    index += 1;
                }
                let ghost copied = self.shared@;
                if count > 0 {
                    let ghost before = self.shared@[count - 1].pushed();
                    self.shared[count - 1].push(Some(message), allocation);
                    assert(self.shared@[count - 1].pushed().drop_last() =~= before);
                    assert(forall|i: int| 0 <= i < count - 1 ==> self.shared@[i] == copied[i]);
                }
                assert forall|i: int| 0 <= i < old(self).outputs().len() implies {
                    let output = #[trigger] self.outputs()[i];
                    &&& output.len() == old(self).outputs()[i].len() + 1
                    &&& output.drop_last() == old(self).outputs()[i]
                    &&& if i == old(self).outputs().len() - 1 {
                        output.last() == Some(message)
                    } else {
                        copy_of::<T, D, D::Allocation>(Some(message), output.last())
                    }
                } by {
                    assert(self.outputs()[i] == self.shared@[i].pushed());
                    assert(old(self).outputs()[i] == old(self).shared@[i].pushed());
                    if i < count - 1 {
                        assert(copied[i].pushed().len() == old(self).shared@[i].pushed().len() + 1);
                    }
                }
            },
            None => {
                let mut index: usize = 0;
                while index < count
                    invariant
                        index <= count,
                        count == self.shared@.len(),
                        count == old(self).shared@.len(),
                        self.seen@ == old(self).seen@.push(None),
                        forall|i: int| 0 <= i < count ==> (#[trigger] self.shared@[i]).inv(),
                        forall|i: int|
                            index <= i < count ==> (#[trigger] self.shared@[i]).pushed() 
                                == old(self).shared@[i].pushed(),
                        forall|i: int|
                            0 <= i < index ==> {
                                let output = (#[trigger] self.shared@[i]).pushed();
                                &&& output.len() == old(self).shared@[i].pushed().len() + 1
                                &&& output.drop_last() == old(self).shared@[i].pushed()
                                &&& output.last() == None::<Message<T, D>>
                            },
                    decreases count - index,
                {
                    let mut returned: Option<<Message<T, D> as Container>::Allocation> = None;
                    let ghost before = self.shared@[index as int].pushed();
                    self.shared[index].push(None, &mut returned);
                    assert(self.shared@[index as int].pushed().drop_last() =~= before);
                    index += 1;
                }
            },
        }
    }
}

} // verus!
