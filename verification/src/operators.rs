//! Operators of the data plane, the capabilities they hand out, and the
//! transformations of batches that stream operators are made of.

pub mod capability;
pub mod concat;
pub mod exchange;
pub mod filter;
pub mod map;
pub mod rc;
pub mod unordered_input_core;

pub use self::capability::{ActivateCapability, Capability};
pub use self::concat::{Concat, Concatenate};
pub use self::filter::Filter;
pub use self::map::{MapInPlace, MapRecords};
pub use self::rc::SharedStream;
pub use self::unordered_input_core::{UnorderedHandleCore, UnorderedInputCore};
