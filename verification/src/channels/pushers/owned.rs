//! A `Push` implementor with a single target.

use vstd::prelude::*;
use crate::channels::Message;
use crate::communication::Push;
use crate::container::Container;

verus! {

/// A pusher that can bind to a single downstream pusher.
pub struct PushOwned<T, D, P> {
    target: Option<P>,
    seen: Ghost<Seq<Option<Message<T, D>>>>,
}

impl<T, D: Container, P: Push<Message<T, D>>> PushOwned<T, D, P> {
    /// What the downstream pusher has been handed so far, where one is set.
    pub closed spec fn delivered(&self) -> Option<Seq<Option<Message<T, D>>>> {
        match self.target {
            Some(pusher) => Some(pusher.pushed()),
            None => None,
        }
    }

    /// Create a new `PushOwned` without a downstream pusher.
    pub fn new() -> (owned: Self)
        ensures
            owned.inv(),
            owned.pushed() == Seq::<Option<Message<T, D>>>::empty(),
            owned.delivered() is None,
    {
        PushOwned { target: None, seen: Ghost(Seq::empty()) }
    }

    /// Set the downstream pusher.
    pub fn set(&mut self, pusher: P)
        requires
            old(self).inv(),
            pusher.inv(),
        ensures
            final(self).inv(),
            final(self).pushed() == old(self).pushed(),
            final(self).delivered() == Some(pusher.pushed()),
    {
        self.target = Some(pusher);
    }
}

impl<T, D: Container, P: Push<Message<T, D>>> Push<Message<T, D>> for PushOwned<T, D, P> {
    closed spec fn inv(&self) -> bool {
        self.target matches Some(pusher) ==> pusher.inv()
    }

    closed spec fn pushed(&self) -> Seq<Option<Message<T, D>>> {
        self.seen@
    }

    /// The downstream pusher, where one is set, is handed the element.
    open spec fn pushes(before: &Self, message: Option<Message<T, D>>, after: &Self) -> bool {
        after.delivered() == match before.delivered() {
            Some(history) => Some(history.push(message)),
            None => None,
        }
    }

    /// Hands the element to the downstream pusher; without one the element
    /// is dropped.
    fn push(&mut self, message: Option<Message<T, D>>, allocation: &mut Option<<Message<T, D> as Container>::Allocation>)
        ensures
            final(self).delivered() == match old(self).delivered() {
                Some(history) => Some(history.push(message)),
                None => None,
            },
    {
        proof {
            self.seen@ = self.seen@.push(message);
        }
        match &mut self.target {
            Some(pusher) => {
                pusher.push(message, allocation);
            },
            None => {},
        }
    }
}

} // verus!
