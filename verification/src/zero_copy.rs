//! Zero-copy container builders.
//!
//! A builder collects records that are already encoded as bytes and hands
//! them out in byte buffers that are shared, not copied.

use vstd::prelude::*;
use std::collections::VecDeque;
use std::sync::Arc;
use crate::container::Container;

verus! {

/// The number of pending bytes above which a builder closes a buffer.
pub const READY_BYTES: usize = 1024;

/// `Arc::clone` of the standard library: another pointer to the same
/// allocation, so to the same value.
#[verifier::external_body]
fn share<T>(shared: &Arc<T>) -> (again: Arc<T>)
    ensures
        *again == **shared,
{
    Arc::clone(shared)
}

/// A byte buffer of encoded records that is shared between its holders.
pub struct ZeroCopyWrapper {
    buffer: Arc<Vec<u8>>,
    length: usize,
}

impl View for ZeroCopyWrapper {
    type V = Seq<u8>;

    closed spec fn view(&self) -> Seq<u8> {
        (*self.buffer)@
    }
}

impl ZeroCopyWrapper {
    /// The length that the wrapper reports is the number of its bytes.
    pub closed spec fn wf(&self) -> bool {
        self.length == (*self.buffer)@.len()
    }

    /// Wraps a buffer of encoded records.
    pub fn new(buffer: Vec<u8>) -> (wrapper: Self)
        ensures
            wrapper.wf(),
            wrapper@ == buffer@,
    {
        let length: usize = buffer.len();
        ZeroCopyWrapper { buffer: Arc::new(buffer), length }
    }

    /// The bytes of the buffer.
    pub fn bytes(&self) -> (bytes: &[u8])
        ensures
            bytes@ == self@,
    {
        let buffer: &Vec<u8> = &self.buffer;
        buffer.as_slice()
    }
}

impl Clone for ZeroCopyWrapper {
    /// Another holder of the same buffer.
    fn clone(&self) -> (copy: Self)
        ensures
            copy@ == self@,
            copy.wf() == self.wf(),
    {
        ZeroCopyWrapper { buffer: share(&self.buffer), length: self.length }
    }
}

impl Default for ZeroCopyWrapper {
    /// A wrapper of an empty buffer.
    fn default() -> (wrapper: Self)
        ensures
            wrapper.wf(),
            wrapper@ == Seq::<u8>::empty(),
    {
        ZeroCopyWrapper { buffer: Arc::new(Vec::new()), length: 0 }
    }
}

impl Container for ZeroCopyWrapper {
    type Allocation = ();

    /// The wrapper holds as many records as it reports bytes.
    closed spec fn spec_len(&self) -> nat {
        self.length as nat
    }

    open spec fn replica(source: &Self, copy: &Self) -> bool {
        copy@ == source@
    }

    open spec fn hollowed(&self, shell: &Self::Allocation) -> bool {
        true
    }

    fn len(&self) -> (n: usize) {
        self.length
    }

    fn is_empty(&self) -> (empty: bool) {
        self.length == 0
    }

    /// A shared buffer has no shell of its own to give.
    fn hollow(self) -> (shell: ()) {
        ()
    }
}

/// Collects encoded records and closes a buffer whenever more than
/// [`READY_BYTES`] bytes are pending.
pub struct ZeroCopyBuilder {
    pending: Vec<u8>,
    ready: VecDeque<Vec<u8>>,
    current: Option<ZeroCopyWrapper>,
}

/// The buffers of `ready` that stay when the oldest is taken out.
pub open spec fn without_oldest(ready: Seq<Seq<u8>>) -> Seq<Seq<u8>> {
    if ready.len() > 0 {
        ready.skip(1)
    } else {
        ready
    }
}

/// The views of `buffers`.
pub open spec fn buffer_views(buffers: Seq<Vec<u8>>) -> Seq<Seq<u8>> {
    Seq::new(buffers.len(), |i: int| buffers[i]@)
}

impl ZeroCopyBuilder {
    /// The bytes that are pending.
    pub closed spec fn pending(&self) -> Seq<u8> {
        self.pending@
    }

    /// The buffers that are closed and not yet extracted, oldest first.
    pub closed spec fn ready(&self) -> Seq<Seq<u8>> {
        buffer_views(self.ready@)
    }

    /// The buffer that was extracted last.
    pub closed spec fn current(&self) -> Option<ZeroCopyWrapper> {
        self.current
    }

    /// Appends the bytes of one encoded record to those pending, and
    /// closes the buffer where more than [`READY_BYTES`] bytes are pending
    /// then.
    pub fn push_into(&mut self, item: &[u8])
        ensures
            final(self).current() == old(self).current(),
            if old(self).pending().len() + item@.len() > READY_BYTES {
                &&& final(self).pending() == Seq::<u8>::empty()
                &&& final(self).ready() == old(self).ready().push(old(self).pending() + item@)
            } else {
                &&& final(self).pending() == old(self).pending() + item@
                &&& final(self).ready() == old(self).ready()
            },
    {
        self.pending.extend_from_slice(item);
        assert(self.pending@ =~= old(self).pending@ + item@);
        if self.pending.len() > READY_BYTES {
            self.close();
        }
    }

    /// Moves the pending bytes into a buffer of their own behind those that
    /// are ready.
    fn close(&mut self)
        ensures
            final(self).current() == old(self).current(),
            final(self).pending() == Seq::<u8>::empty(),
            final(self).ready() == old(self).ready().push(old(self).pending()),
    {
        let mut buffer: Vec<u8> = Vec::new();
        std::mem::swap(&mut self.pending, &mut buffer);
        self.ready.push_back(buffer);
        assert(self.ready() =~= old(self).ready().push(old(self).pending()));
    }

    /// Extracts the oldest buffer that is ready, if there is one.
    pub fn extract(&mut self) -> (extracted: Option<&mut ZeroCopyWrapper>)
        ensures
            match extracted {
                Some(wrapper) => {
                    &&& old(self).ready().len() > 0
                    &&& wrapper@ == old(self).ready()[0]
                    &&& wrapper.wf()
                    &&& final(self).current() == Some(*final(wrapper))
                },
                None => old(self).ready().len() == 0 && final(self).current() is None,
            },
            final(self).pending() == old(self).pending(),
            final(self).ready() == without_oldest(old(self).ready()),
    {
        self.current = match self.ready.pop_front() {
            Some(buffer) => Some(ZeroCopyWrapper::new(buffer)),
            None => None,
        };
        assert(self.ready() =~= without_oldest(old(self).ready()));
        self.current.as_mut()
    }

    /// Closes the buffer of the pending bytes, where there are any, and
    /// extracts the oldest buffer that is ready.
    pub fn finish(&mut self) -> (extracted: Option<&mut ZeroCopyWrapper>)
        ensures
            final(self).pending() == Seq::<u8>::empty(),
            match extracted {
                Some(wrapper) => {
                    &&& wrapper.wf()
                    &&& wrapper@ == if old(self).ready().len() > 0 {
                        old(self).ready()[0]
                    } else {
                        old(self).pending()
                    }
                    &&& old(self).ready().len() > 0 || old(self).pending().len() > 0
                    &&& final(self).current() == Some(*final(wrapper))
                },
                None => {
                    &&& old(self).ready().len() == 0
                    &&& old(self).pending().len() == 0
                    &&& final(self).current() is None
                },
            },
            final(self).ready() == without_oldest(
                if old(self).pending().len() > 0 {
                    old(self).ready().push(old(self).pending())
                } else {
                    old(self).ready()
                },
            ),
    {
        if self.pending.len() > 0 {
            self.close();
        }
        self.extract()
    }
}

impl Default for ZeroCopyBuilder {
    /// A builder without bytes.
    fn default() -> (builder: Self)
        ensures
            builder.pending() == Seq::<u8>::empty(),
            builder.ready() == Seq::<Seq<u8>>::empty(),
            builder.current() is None,
    {
        let builder = ZeroCopyBuilder { pending: Vec::new(), ready: VecDeque::new(), current: None };
        assert(builder.ready() =~= Seq::<Seq<u8>>::empty());
        builder
    }
}

} // verus!
