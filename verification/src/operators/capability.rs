//! Capabilities to send data from operators.
//!
//! A capability attests that its holder may send records at its time or
//! later. Every capability is a claim in the batch of changes of its
//! operator: making one adds a claim at its time, giving one up takes the
//! claim away.

use vstd::prelude::*;
use crate::progress::{ChangeBatch, Timestamp};

verus! {

/// The capability to send data with a certain timestamp on a dataflow edge.
pub struct Capability<T> {
    time: T,
}

impl<T: Timestamp> Capability<T> {
    /// The timestamp associated with this capability.
    pub closed spec fn spec_time(&self) -> T {
        self.time
    }

    /// Creates a new capability at `time` and records the claim in
    /// `internal`.
    pub fn new(time: T, internal: &mut ChangeBatch<T>) -> (capability: Self)
        ensures
            capability.spec_time() == time,
            final(internal)@ == old(internal)@.push((time, 1i64)),
    {
        internal.update(time, 1);
        Capability { time }
    }

    /// The timestamp associated with this capability.
    pub fn time(&self) -> (time: &T)
        ensures
            *time == self.spec_time(),
    {
        &self.time
    }

    /// Makes a new capability for a timestamp `new_time` that is not before
    /// the timestamp of `self`, and records the claim in `internal`.
    pub fn delayed(&self, new_time: &T, internal: &mut ChangeBatch<T>) -> (capability: Self)
        requires
            self.spec_time().spec_less_equal(new_time),
        ensures
            capability.spec_time() == *new_time,
            final(internal)@ == old(internal)@.push((*new_time, 1i64)),
    {
        Capability::new(*new_time, internal)
    }

    /// Downgrades the capability to one for `new_time`, which is not before
    /// its timestamp: the new claim is recorded first, then the old one
    /// given up.
    pub fn downgrade(&mut self, new_time: &T, internal: &mut ChangeBatch<T>)
        requires
            old(self).spec_time().spec_less_equal(new_time),
        ensures
            final(self).spec_time() == *new_time,
            final(internal)@ == old(internal)@.push((*new_time, 1i64)).push(
                (old(self).spec_time(), -1i64),
            ),
    {
        internal.update(*new_time, 1);
        internal.update(self.time, -1);
        self.time = *new_time;
    }

    /// Gives the capability up: the claim at its time is taken away.
    pub fn release(self, internal: &mut ChangeBatch<T>)
        ensures
            final(internal)@ == old(internal)@.push((self.spec_time(), -1i64)),
    {
        internal.update(self.time, -1);
    }
}

/// Capability that names the operator it belongs to, so that the operator
/// can be scheduled when the capability changes.
pub struct ActivateCapability<T> {
    /// The capability.
    pub capability: Capability<T>,
    /// The path to the operator that the capability belongs to.
    pub address: Vec<usize>,
}

impl<T: Timestamp> ActivateCapability<T> {
    /// Creates a new activating capability.
    pub fn new(capability: Capability<T>, address: &Vec<usize>) -> (activating: Self)
        ensures
            activating.capability == capability,
            activating.address@ == address@,
    {
        ActivateCapability { capability, address: address.clone() }
    }

    /// The timestamp associated with this capability.
    pub fn time(&self) -> (time: &T)
        ensures
            *time == self.capability.spec_time(),
    {
        self.capability.time()
    }

    /// Creates a new delayed capability.
    pub fn delayed(&self, time: &T, internal: &mut ChangeBatch<T>) -> (activating: Self)
        requires
            self.capability.spec_time().spec_less_equal(time),
        ensures
            activating.capability.spec_time() == *time,
            activating.address@ == self.address@,
            final(internal)@ == old(internal)@.push((*time, 1i64)),
    {
        ActivateCapability {
            capability: self.capability.delayed(time, internal),
            address: self.address.clone(),
        }
    }

    /// Gives the capability up: the claim at its time is taken away.
    pub fn release(self, internal: &mut ChangeBatch<T>)
        ensures
            final(internal)@ == old(internal)@.push((self.capability.spec_time(), -1i64)),
    {
        self.capability.release(internal);
    }
}

} // verus!
