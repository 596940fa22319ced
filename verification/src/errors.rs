//! Why an operation on a game was refused.

use vstd::prelude::*;

verus! {

/// An error returned by a game operation. Each variant carries the numbers
/// that explain the refusal, so a caller can render a precise message.
///
/// No operation that returns one of these mutates any state.
#[derive(Clone, Copy, Debug, PartialEq, Eq, Structural)]
pub enum GameError {
    /// Buying an entity of tier `requested` needs an owned entity of at
    /// least that tier; the highest tier owned is `owned_max`.
    InsufficientTier { owned_max: u8, requested: u8 },
    /// The purchase costs `cost`, more than `balance` holds.
    InsufficientFunds { balance: u64, cost: u64 },
    /// The requested tier lies above the configured maximum.
    TierTooHigh { requested: u8, max_level: u8 },
    /// Every slot of the stack is occupied.
    StackFull,
    /// A slot index lies outside the stack.
    SlotOutOfRange { slot: usize },
    /// The two slots hold entities of different tiers.
    TierMismatch { first: u8, second: u8 },
    /// Both slots are empty: there is nothing to merge.
    EmptySlot,
    /// Promoting the merged entity would pass the configured maximum tier.
    TierCapExceeded { tier: u8, max_level: u8 },
    /// The cooldown since the last successful claim has not elapsed.
    ClickTooSoon { last_click: u64, now: u64 },
}

} // verus!
