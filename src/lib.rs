//! Concurrency primitives as verified state machines: a multi-producer,
//! single-consumer channel, a lock-guarded shared counter with reference
//! counted handles, and thread handles with their completion states.
//! Blocking and the actual threads live with the caller; every decision that
//! the primitives make is taken here.
pub mod channel;
pub mod counter;
pub mod thread;
pub mod increments;
