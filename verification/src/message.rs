//! Borrowed sources from which a container is rebuilt.

use vstd::prelude::*;
use crate::container::IntoAllocated;

verus! {

/// Either an immutable or mutable reference.
pub enum RefOrMut<'a, T> {
    /// An immutable reference.
    Ref(&'a T),
    /// A mutable reference.
    Mut(&'a mut T),
}

impl<'a, T> RefOrMut<'a, T> {
    /// The value behind the reference at the moment it is handed over.
    pub open spec fn value(self) -> T {
        match self {
            RefOrMut::Ref(reference) => *reference,
            RefOrMut::Mut(reference) => *reference,
        }
    }

    /// Reads through either kind of reference.
    pub fn deref(&self) -> (target: &T)
        ensures
            *target == self.value(),
    {
        match self {
            RefOrMut::Ref(reference) => reference,
            RefOrMut::Mut(reference) => reference,
        }
    }

    /// Assembles the content of `self` using the provided allocation, or a
    /// fresh one where the slot is empty. The slot is empty afterwards.
    pub fn assemble<A: IntoAllocated<T>>(self, allocation: &mut Option<A>) -> (assembled: T)
        ensures
            *final(allocation) == None::<A>,
            A::rebuilt(self.value(), assembled),
            self matches RefOrMut::Mut(reference) ==> assembled == *reference,
    {
        if let Some(allocation) = allocation.take() {
            allocation.assemble(self)
        } else {
            A::assemble_new(self)
        }
    }
}

impl<'a, T: Clone> RefOrMut<'a, T> {
    /// Extracts the contents of `self`, either by cloning or swapping.
    ///
    /// A mutable source receives the previous value of `element` in exchange.
    pub fn swap(self, element: &mut T)
        ensures
            self matches RefOrMut::Ref(reference) ==> cloned(*reference, *final(element)),
            self matches RefOrMut::Mut(reference) ==> *final(element) == *reference
                && *final(reference) == *old(element),
    {
        match self {
            RefOrMut::Ref(reference) => {
                *element = reference.clone();
            },
            RefOrMut::Mut(reference) => {
                std::mem::swap(reference, element);
            },
        }
    }

    /// Extracts the contents of `self`, either by cloning or swapping, and
    /// returns them; a mutable source keeps `element` in exchange.
    pub fn replace(self, element: T) -> (contents: T)
        ensures
            self matches RefOrMut::Ref(reference) ==> cloned(*reference, contents),
            self matches RefOrMut::Mut(reference) ==> contents == *reference && *final(reference)
                == element,
    {
        let mut element = element;
        self.swap(&mut element);
        element
    }
}

} // verus!
