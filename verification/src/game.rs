//! The per-player game state and the rules that mutate it.
//!
//! A `Game` holds a spendable balance, a stack of twelve entity slots (a
//! slot holds `0` when empty, otherwise the tier of the entity in it), and
//! the timestamps of reward claims. Every mutating operation validates all
//! of its preconditions first and either applies its whole effect or returns
//! a [`GameError`](crate::errors::GameError) with the state untouched.

use crate::errors::GameError;
use vstd::prelude::*;

verus! {

/// Number of slots in an entity stack.
pub const STACK_SIZE: usize = 12;

/// Price of one entity, per tier: an entity of tier `t` costs `t * 1000`.
pub const ENTITY_COST_PER_TIER: u64 = 1000;

/// Balance a player starts with.
pub const STARTING_BALANCE: u64 = 1000;

/// Minimum nanoseconds between two successful reward claims. The claim
/// window is one minute.
pub const CLICK_COOLDOWN_NS: u64 = 60_000_000_000;

/// A claim pays this much per tier point owned.
pub const CLICK_REWARD_MULTIPLIER: u64 = 100;

/// One player's state.
///
/// `current_click` is a scratch copy of the timestamp of the claim in
/// progress; only `last_click` gates future claims.
pub struct Game {
    pub balance: u64,
    pub entity_stack: Vec<u8>,
    pub last_click: u64,
    pub current_click: u64,
}

/// The stack a fresh game starts with: twelve empty slots.
pub open spec fn fresh_stack() -> Seq<u8> {
    Seq::new(STACK_SIZE as nat, |i: int| 0u8)
}

/// Sum of all tier values in a stack.
pub open spec fn stack_sum(s: Seq<u8>) -> int
    decreases s.len(),
{
    if s.len() == 0 {
        0
    } else {
        stack_sum(s.drop_last()) + s.last()
    }
}

/// Some slot holds an entity of tier `tier` or higher.
pub open spec fn has_tier_at_least(s: Seq<u8>, tier: u8) -> bool {
    exists|i: int| 0 <= i < s.len() && s[i] >= tier
}

/// `m` is the largest value in `s` (`0` when every slot is empty).
pub open spec fn is_max_tier(s: Seq<u8>, m: u8) -> bool {
    &&& forall|i: int| 0 <= i < s.len() ==> s[i] <= m
    &&& (m == 0 || exists|i: int| 0 <= i < s.len() && s[i] == m)
}

/// Slot `i` is the lowest-indexed empty slot of `s`.
pub open spec fn is_first_empty(s: Seq<u8>, i: int) -> bool {
    &&& 0 <= i < s.len()
    &&& s[i] == 0
    &&& forall|j: int| 0 <= j < i ==> s[j] != 0
}

/// No slot of `s` is empty.
pub open spec fn stack_full(s: Seq<u8>) -> bool {
    forall|i: int| 0 <= i < s.len() ==> s[i] != 0
}

/// A claim at `now` is allowed: either no claim ever succeeded, or a full
/// cooldown has elapsed since the last one.
pub open spec fn click_ready(last_click: u64, now: u64) -> bool {
    last_click == 0 || now - last_click >= CLICK_COOLDOWN_NS
}

/// `x` clamped to what a balance can hold.
pub open spec fn saturate_balance(x: int) -> u64 {
    if x <= u64::MAX {
        x as u64
    } else {
        u64::MAX
    }
}

/// Exactly how a purchase relates the state before (given by its fields) to
/// the state after, for every outcome.
pub open spec fn buy_post(
    pre_balance: u64,
    pre_stack: Seq<u8>,
    pre_last: u64,
    pre_cur: u64,
    post: Game,
    tier: u8,
    max_level: u8,
    r: Result<(), GameError>,
) -> bool {
    let cost = tier * ENTITY_COST_PER_TIER;
    &&& post.last_click == pre_last
    &&& post.current_click == pre_cur
    &&& match r {
        Ok(()) => {
            &&& has_tier_at_least(pre_stack, tier)
            &&& cost <= pre_balance
            &&& tier <= max_level
            &&& exists|i: int|
                is_first_empty(pre_stack, i) && post.entity_stack@ == pre_stack.update(i, tier)
            &&& post.balance == pre_balance - cost
        },
        Err(e) => {
            &&& post.balance == pre_balance
            &&& post.entity_stack@ == pre_stack
            &&& match e {
                GameError::InsufficientTier { owned_max, requested } => {
                    &&& !has_tier_at_least(pre_stack, tier)
                    &&& is_max_tier(pre_stack, owned_max)
                    &&& requested == tier
                },
                GameError::InsufficientFunds { balance, cost: c } => {
                    &&& has_tier_at_least(pre_stack, tier)
                    &&& pre_balance < cost
                    &&& balance == pre_balance
                    &&& c == cost
                },
                GameError::TierTooHigh { requested, max_level: m } => {
                    &&& has_tier_at_least(pre_stack, tier)
                    &&& cost <= pre_balance
                    &&& tier > max_level
                    &&& requested == tier
                    &&& m == max_level
                },
                GameError::StackFull => {
                    &&& has_tier_at_least(pre_stack, tier)
                    &&& cost <= pre_balance
                    &&& tier <= max_level
                    &&& stack_full(pre_stack)
                },
                _ => false,
            }
        },
    }
}

/// Exactly how a merge relates the state before to the state after, for
/// every outcome. Merging promotes the entity in `nd_slot` by one tier and
/// empties `st_slot`; merging a slot with itself therefore empties it.
pub open spec fn merge_post(
    pre_balance: u64,
    pre_stack: Seq<u8>,
    pre_last: u64,
    pre_cur: u64,
    post: Game,
    st_slot: usize,
    nd_slot: usize,
    max_level: u8,
    r: Result<(), GameError>,
) -> bool {
    &&& post.balance == pre_balance
    &&& post.last_click == pre_last
    &&& post.current_click == pre_cur
    &&& match r {
        Ok(()) => {
            &&& st_slot < STACK_SIZE
            &&& nd_slot < STACK_SIZE
            &&& pre_stack[st_slot as int] == pre_stack[nd_slot as int]
            &&& pre_stack[st_slot as int] != 0
            &&& pre_stack[st_slot as int] < max_level
            &&& post.entity_stack@ == pre_stack.update(
                nd_slot as int,
                (pre_stack[nd_slot as int] + 1) as u8,
            ).update(st_slot as int, 0u8)
        },
        Err(e) => {
            &&& post.entity_stack@ == pre_stack
            &&& match e {
                GameError::SlotOutOfRange { slot } => {
                    ||| (st_slot >= STACK_SIZE && slot == st_slot)
                    ||| (st_slot < STACK_SIZE && nd_slot >= STACK_SIZE && slot == nd_slot)
                },
                GameError::TierMismatch { first, second } => {
                    &&& st_slot < STACK_SIZE
                    &&& nd_slot < STACK_SIZE
                    &&& pre_stack[st_slot as int] != pre_stack[nd_slot as int]
                    &&& first == pre_stack[st_slot as int]
                    &&& second == pre_stack[nd_slot as int]
                },
                GameError::EmptySlot => {
                    &&& st_slot < STACK_SIZE
                    &&& nd_slot < STACK_SIZE
                    &&& pre_stack[st_slot as int] == 0
                    &&& pre_stack[nd_slot as int] == 0
                },
                GameError::TierCapExceeded { tier, max_level: m } => {
                    &&& st_slot < STACK_SIZE
                    &&& nd_slot < STACK_SIZE
                    &&& pre_stack[st_slot as int] == pre_stack[nd_slot as int]
                    &&& pre_stack[st_slot as int] != 0
                    &&& pre_stack[st_slot as int] >= max_level
                    &&& tier == pre_stack[st_slot as int]
                    &&& m == max_level
                },
                _ => false,
            }
        },
    }
}

/// Exactly how a reward claim relates the state before to the state after,
/// for every outcome. The reward is the sum of all owned tiers times
/// [`CLICK_REWARD_MULTIPLIER`]; the balance saturates at `u64::MAX` rather
/// than wrapping.
pub open spec fn click_post(
    pre_balance: u64,
    pre_stack: Seq<u8>,
    pre_last: u64,
    pre_cur: u64,
    post: Game,
    now: u64,
    r: Result<u64, GameError>,
) -> bool {
    &&& post.entity_stack@ == pre_stack
    &&& match r {
        Ok(new_balance) => {
            &&& click_ready(pre_last, now)
            &&& post.balance == saturate_balance(
                pre_balance + stack_sum(pre_stack) * CLICK_REWARD_MULTIPLIER,
            )
            &&& new_balance == post.balance
            &&& post.last_click == now
            &&& post.current_click == now
        },
        Err(e) => {
            &&& !click_ready(pre_last, now)
            &&& e == (GameError::ClickTooSoon { last_click: pre_last, now })
            &&& post.balance == pre_balance
            &&& post.last_click == pre_last
            &&& post.current_click == pre_cur
        },
    }
}

impl Game {
    /// The stack has its fixed size of twelve slots.
    pub open spec fn wf(self) -> bool {
        self.entity_stack@.len() == STACK_SIZE
    }

    /// Every slot value is at most `max_level`.
    pub open spec fn tiers_bounded(self, max_level: u8) -> bool {
        forall|i: int| 0 <= i < self.entity_stack@.len() ==> self.entity_stack@[i] <= max_level
    }

    /// Well-formed and every tier within the configured bound.
    pub open spec fn valid(self, max_level: u8) -> bool {
        self.wf() && self.tiers_bounded(max_level)
    }

    /// The state a player starts with: the starting balance, an empty
    /// stack, and no claim recorded.
    pub open spec fn is_fresh(self) -> bool {
        &&& self.balance == STARTING_BALANCE
        &&& self.entity_stack@ == fresh_stack()
        &&& self.last_click == 0
        &&& self.current_click == 0
    }

    /// Creates the state a player starts with.
    pub fn new() -> (g: Game)
        ensures
            g.is_fresh(),
            g.wf(),
    {
        let mut stack: Vec<u8> = Vec::new();
        let mut i: usize = 0;
        while i < STACK_SIZE
            invariant
                i <= STACK_SIZE,
                stack@.len() == i,
                forall|j: int| 0 <= j < i ==> stack@[j] == 0u8,
            decreases STACK_SIZE - i,
        {
            stack.push(0u8);
            i = i + 1;
        }
        proof {
            assert(stack@ =~= fresh_stack());
        }
        Game { balance: STARTING_BALANCE, entity_stack: stack, last_click: 0, current_click: 0 }
    }

    /// Returns the highest tier present in the stack, `0` when every slot
    /// is empty.
    pub fn max_tier(&self) -> (r: u8)
        ensures
            is_max_tier(self.entity_stack@, r),
    {
        let mut max: u8 = 0;
        let mut i: usize = 0;
        let n = self.entity_stack.len();
        while i < n
            invariant
                n == self.entity_stack@.len(),
                i <= n,
                forall|j: int| 0 <= j < i ==> self.entity_stack@[j] <= max,
                max == 0 || exists|j: int| 0 <= j < i && self.entity_stack@[j] == max,
            decreases n - i,
        {
            let v = self.entity_stack[i];
            if v > max {
                max = v;
            }
            i = i + 1;
        }
        max
    }

    /// Writes `tier` into `slot`, touching nothing else.
    fn add_entity(&mut self, tier: u8, slot: usize)
        requires
            slot < old(self).entity_stack@.len(),
        ensures
            final(self).entity_stack@ == old(self).entity_stack@.update(slot as int, tier),
            final(self).balance == old(self).balance,
            final(self).last_click == old(self).last_click,
            final(self).current_click == old(self).current_click,
    {
        self.entity_stack[slot] = tier;
    }

    /// Buys one entity of `tier` into the first empty slot, debiting
    /// `tier * 1000` from the balance.
    ///
    /// The purchase is refused, in this order of checks, when the player
    /// owns no entity of at least `tier`, when the balance cannot cover the
    /// cost, when `tier` lies above `max_level`, and when no slot is empty.
    /// On refusal nothing changes.
    pub fn buy_entity(&mut self, tier: u8, max_level: u8) -> (result: Result<(), GameError>)
        requires
            old(self).wf(),
        ensures
            final(self).wf(),
            old(self).tiers_bounded(max_level) ==> final(self).tiers_bounded(max_level),
            buy_post(
                old(self).balance,
                old(self).entity_stack@,
                old(self).last_click,
                old(self).current_click,
                *final(self),
                tier,
                max_level,
                result,
            ),
    {
        let owned_max = self.max_tier();
        let cost = (tier as u64) * ENTITY_COST_PER_TIER;
        if owned_max < tier {
            return Err(GameError::InsufficientTier { owned_max, requested: tier });
        }
        if self.balance < cost {
            return Err(GameError::InsufficientFunds { balance: self.balance, cost });
        }
        if tier > max_level {
            return Err(GameError::TierTooHigh { requested: tier, max_level });
        }
        proof {
            if owned_max == 0 {
                assert(old(self).entity_stack@[0] >= tier);
            } else {
                let j = choose|j: int|
                    0 <= j < old(self).entity_stack@.len() && old(self).entity_stack@[j]
                        == owned_max;
                assert(old(self).entity_stack@[j] >= tier);
            }
        }
        let mut i: usize = 0;
        let n = self.entity_stack.len();
        while i < n
            invariant
                n == self.entity_stack@.len(),
                n == STACK_SIZE,
                i <= n,
                forall|j: int| 0 <= j < i ==> self.entity_stack@[j] != 0,
                *self == *old(self),
                cost == tier * ENTITY_COST_PER_TIER,
                cost <= old(self).balance,
                has_tier_at_least(old(self).entity_stack@, tier),
                tier <= max_level,
            decreases n - i,
        {
            if self.entity_stack[i] == 0 {
                proof {
                    assert(is_first_empty(self.entity_stack@, i as int));
                }
                self.add_entity(tier, i);
                self.balance = self.balance - cost;
                return Ok(());
            }
            i = i + 1;
        }
        Err(GameError::StackFull)
    }

    /// Merges the entities in `st_slot` and `nd_slot`: both slots must hold
    /// the same nonzero tier, and that tier must lie below `max_level`. On
    /// success `nd_slot` is promoted by one tier and `st_slot` is emptied.
    /// On refusal nothing changes.
    pub fn merge_entities(&mut self, st_slot: usize, nd_slot: usize, max_level: u8) -> (result:
        Result<(), GameError>)
        requires
            old(self).wf(),
        ensures
            final(self).wf(),
            old(self).tiers_bounded(max_level) ==> final(self).tiers_bounded(max_level),
            merge_post(
                old(self).balance,
                old(self).entity_stack@,
                old(self).last_click,
                old(self).current_click,
                *final(self),
                st_slot,
                nd_slot,
                max_level,
                result,
            ),
    {
        if st_slot >= STACK_SIZE {
            return Err(GameError::SlotOutOfRange { slot: st_slot });
        }
        if nd_slot >= STACK_SIZE {
            return Err(GameError::SlotOutOfRange { slot: nd_slot });
        }
        let st_entity = self.entity_stack[st_slot];
        let nd_entity = self.entity_stack[nd_slot];
        if st_entity != nd_entity {
            return Err(GameError::TierMismatch { first: st_entity, second: nd_entity });
        }
        if st_entity == 0 {
            return Err(GameError::EmptySlot);
        }
        if st_entity >= max_level {
            return Err(GameError::TierCapExceeded { tier: st_entity, max_level });
        }
        self.entity_stack[nd_slot] = nd_entity + 1;
        self.entity_stack[st_slot] = 0;
        Ok(())
    }

    /// Claims the periodic reward at time `now`: allowed when no claim ever
    /// succeeded or the cooldown has elapsed since the last one. On success
    /// the reward — the sum of all owned tiers times
    /// [`CLICK_REWARD_MULTIPLIER`] — is credited (saturating at `u64::MAX`),
    /// both claim timestamps are set to `now`, and the new balance is
    /// returned. On refusal nothing changes.
    pub fn click(&mut self, now: u64) -> (result: Result<u64, GameError>)
        requires
            old(self).wf(),
        ensures
            final(self).wf(),
            click_post(
                old(self).balance,
                old(self).entity_stack@,
                old(self).last_click,
                old(self).current_click,
                *final(self),
                now,
                result,
            ),
    {
        let ready = self.last_click == 0 || (now >= self.last_click && now - self.last_click
            >= CLICK_COOLDOWN_NS);
        if !ready {
            return Err(GameError::ClickTooSoon { last_click: self.last_click, now });
        }
        let summ = sum_of_tiers(&self.entity_stack);
        let reward = summ * CLICK_REWARD_MULTIPLIER;
        let new_balance = if reward <= u64::MAX - self.balance {
            self.balance + reward
        } else {
            u64::MAX
        };
        self.balance = new_balance;
        self.last_click = now;
        self.current_click = now;
        Ok(new_balance)
    }
}

/// Sums the tier values of a full stack. The result fits comfortably in a
/// `u64`: twelve slots of at most `255` each.
fn sum_of_tiers(stack: &Vec<u8>) -> (s: u64)
    requires
        stack@.len() == STACK_SIZE,
    ensures
        s == stack_sum(stack@),
        s <= 255 * STACK_SIZE,
{
    let mut summ: u64 = 0;
    let mut i: usize = 0;
    while i < STACK_SIZE
        invariant
            stack@.len() == STACK_SIZE,
            i <= STACK_SIZE,
            summ == stack_sum(stack@.subrange(0, i as int)),
            summ <= 255 * i,
        decreases STACK_SIZE - i,
    {
        let v = stack[i];
        proof {
            assert(stack@.subrange(0, i + 1 as int).drop_last() =~= stack@.subrange(0, i as int));
            assert(stack@.subrange(0, i + 1 as int).last() == stack@[i as int]);
        }
        summ = summ + (v as u64);
        i = i + 1;
    }
    proof {
        assert(stack@.subrange(0, STACK_SIZE as int) =~= stack@);
    }
    summ
}

} // verus!
