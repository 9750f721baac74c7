//! Wrappers that interpose on the pull side of a channel.

pub mod counter;

pub use self::counter::Counter;
