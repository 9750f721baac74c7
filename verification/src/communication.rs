//! Push and pull endpoints: the primitives that move batches along a
//! channel and hand empty allocations back.

use vstd::prelude::*;
use crate::container::Container;

verus! {

/// A composite trait for types that may be used with channels.
pub trait Data: Send + Sync + 'static {

}

impl<T: Send + Sync + 'static> Data for T {

}

/// Pushing elements of type `T`.
///
/// In the call to `push` the implementor may move the allocation of an
/// earlier element into `allocation`, which hands the caller a shell to
/// refill.
///
/// Conventionally, a sequence of calls to `push()` should conclude with a
/// call of `push(None, ..)` or `done()` to signal to implementors that
/// another call to `push()` may not be coming.
pub trait Push<T: Container> {
    /// What the endpoint needs to hold between calls.
    spec fn inv(&self) -> bool;

    /// Everything handed to the endpoint so far, oldest first; `None` marks
    /// a flush.
    spec fn pushed(&self) -> Seq<Option<T>>;

    /// What one push makes of the endpoint: whether `after` is `before`
    /// when `element` has been pushed.
    spec fn pushes(before: &Self, element: Option<T>, after: &Self) -> bool;

    /// Pushes `element` with the opportunity to take ownership.
    fn push(&mut self, element: Option<T>, allocation: &mut Option<T::Allocation>)
        requires
            old(self).inv(),
        ensures
            final(self).inv(),
            final(self).pushed() == old(self).pushed().push(element),
            Self::pushes(&*old(self), element, &*final(self)),
    ;

    /// Pushes `element` and drops any resulting resources.
    fn send(&mut self, element: T)
        requires
            old(self).inv(),
        ensures
            final(self).inv(),
            final(self).pushed() == old(self).pushed().push(Some(element)),
            Self::pushes(&*old(self), Some(element), &*final(self)),
    {
        let mut allocation: Option<T::Allocation> = None;
        self.push(Some(element), &mut allocation);
    }

    /// Pushes `None`, conventionally signalling a flush.
    fn done(&mut self)
        requires
            old(self).inv(),
        ensures
            final(self).inv(),
            final(self).pushed() == old(self).pushed().push(None),
            Self::pushes(&*old(self), None, &*final(self)),
    {
        let mut allocation: Option<T::Allocation> = None;
        self.push(None, &mut allocation);
    }
}

/// Pulling elements of type `T`.
pub trait Pull<T: Container> {
    /// What the endpoint needs to hold between calls.
    spec fn inv(&self) -> bool;

    /// The answer to every pull so far, oldest first; `None` marks a pull
    /// that found nothing.
    spec fn pulled(&self) -> Seq<Option<T>>;

    /// Pulls an element and provides the opportunity to hand an allocation
    /// back.
    ///
    /// If `pull` returns `None` this conventionally signals that no more
    /// data is available at the moment, and the puller should find
    /// something better to do. Whatever the caller leaves in the slot goes
    /// back to the implementor.
    fn pull(&mut self) -> (pulled: (Option<T>, &mut Option<T::Allocation>))
        requires
            old(self).inv(),
        ensures
            final(self).inv(),
            final(self).pulled() == old(self).pulled().push(pulled.0),
    ;

    /// Takes the next element, if there is one.
    fn recv(&mut self) -> (element: Option<T>)
        requires
            old(self).inv(),
        ensures
            final(self).inv(),
            final(self).pulled() == old(self).pulled().push(element),
    {
        self.pull().0
    }
}

impl<T: Container, P: Push<T>> Push<T> for Box<P> {
    open spec fn inv(&self) -> bool {
        (**self).inv()
    }

    open spec fn pushed(&self) -> Seq<Option<T>> {
        (**self).pushed()
    }

    open spec fn pushes(before: &Self, element: Option<T>, after: &Self) -> bool {
        P::pushes(&**before, element, &**after)
    }

    fn push(&mut self, element: Option<T>, allocation: &mut Option<T::Allocation>) {
        (**self).push(element, allocation)
    }
}

impl<T: Container, P: Pull<T>> Pull<T> for Box<P> {
    open spec fn inv(&self) -> bool {
        (**self).inv()
    }

    open spec fn pulled(&self) -> Seq<Option<T>> {
        (**self).pulled()
    }

    fn pull(&mut self) -> (pulled: (Option<T>, &mut Option<T::Allocation>)) {
        (**self).pull()
    }
}

} // verus!
