//! The data plane of a timely dataflow worker: containers and their recycled
//! allocations, push and pull endpoints, worker allocators, parallelization
//! contracts, counting and fan-out wrappers, buffered event logging and the
//! unordered input operator.

pub mod allocator;
pub mod channels;
pub mod communication;
pub mod container;
pub mod initialize;
pub mod logging;
pub mod message;
pub mod operators;
pub mod partition;
pub mod progress;
pub mod registry;
pub mod scope;
pub mod stream;
pub mod zero_copy;
