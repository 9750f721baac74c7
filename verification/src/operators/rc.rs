//! Shared containers

use vstd::prelude::*;
use std::rc::Rc;
use crate::container::Container;

verus! {

/// Convert a batch into a shared batch.
pub trait SharedStream: Container {
    /// Convert a batch into a shared batch, which its recipients read
    /// without a copy of their own.
    fn shared(self) -> (shared: Rc<Self>)
        ensures
            *shared == self,
    ;
}

impl<C: Container> SharedStream for C {
    fn shared(self) -> (shared: Rc<Self>) {
        Rc::new(self)
    }
}

} // verus!
