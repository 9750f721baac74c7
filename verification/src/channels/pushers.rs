//! Wrappers that interpose on the push side of a channel.

pub mod buffer;
pub mod counter;
pub mod exchange;
pub mod owned;
pub mod tee;

pub use self::counter::{Counter, CounterCore};
pub use self::exchange::Exchange;
pub use self::owned::PushOwned;
pub use self::tee::{Tee, TeeCore, TeeHelper};
