//! Playback state, loop regions, and the transport that drives the clock.
//!
//! The state is a single value, every transition is a total function from a
//! state and an event to a new state or an explicit rejection, and what the
//! user asked for is carried beside what the engine is doing rather than
//! hidden in a flag.

pub mod looping;
pub mod state;
pub mod transport;
