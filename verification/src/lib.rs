//! A small incremental ("clicker") game engine.
//!
//! A player accumulates a balance, buys entities of increasing tier into a
//! fixed stack of twelve slots, merges two same-tier entities into one of the
//! next tier, and claims a time-gated reward whose size grows with the tiers
//! owned. The engine itself is pure: every operation takes the caller's
//! identity and, where time matters, the current timestamp as plain values,
//! validates all of its preconditions, and either applies its whole effect or
//! returns an error with the state untouched.

pub mod codec;
pub mod errors;
pub mod game;
pub mod registry;
