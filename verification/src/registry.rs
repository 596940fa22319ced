//! The account registry: one game per account identifier.
//!
//! `Main` maps account identifiers to their [`Game`] states and carries the
//! process-wide configuration. Every operation resolves the caller's account
//! first, lazily creating a fresh game on first contact, then applies the
//! corresponding game rule. Operations on one account never touch another
//! account's state.

use crate::errors::GameError;
use crate::game::buy_post;
use crate::game::click_post;
use crate::game::fresh_stack;
use crate::game::is_max_tier;
use crate::game::merge_post;
use crate::game::Game;
use crate::game::STARTING_BALANCE;
use vstd::prelude::*;

verus! {

/// The registry of all players, with the deployment-time configuration.
///
/// `max_user_balance` is a declared bound on a player's balance that no
/// operation enforces; it is kept as configuration only.
pub struct Main {
    pub max_entity_level: u8,
    pub max_user_balance: u64,
    pub users: Vec<(String, Game)>,
}

/// How one operation for `user` may change the registry: the configuration
/// is untouched, `user` is present afterwards, every other account keeps its
/// exact state, and when `user` was absent its fresh entry is appended at
/// the end.
pub open spec fn registry_step(pre: Main, post: Main, user: Seq<char>) -> bool {
    &&& post.max_entity_level == pre.max_entity_level
    &&& post.max_user_balance == pre.max_user_balance
    &&& post.contains_user(user)
    &&& if pre.contains_user(user) {
        &&& post.users@.len() == pre.users@.len()
        &&& forall|i: int|
            0 <= i < pre.users@.len() ==> (#[trigger] post.users@[i]).0 == pre.users@[i].0
        &&& forall|i: int|
            0 <= i < pre.users@.len() && pre.users@[i].0@ != user ==> (#[trigger] post.users@[i]).1
                == pre.users@[i].1
    } else {
        &&& post.users@.len() == pre.users@.len() + 1
        &&& forall|i: int|
            0 <= i < pre.users@.len() ==> (#[trigger] post.users@[i]) == pre.users@[i]
        &&& post.users@[pre.users@.len() as int].0@ == user
    }
}

impl Main {
    /// No two entries share an account identifier.
    pub open spec fn keys_unique(self) -> bool {
        forall|i: int, j: int|
            0 <= i < j < self.users@.len() ==> (#[trigger] self.users@[i]).0@ != (
            #[trigger] self.users@[j]).0@
    }

    /// Every stored game is well formed and within the configured tier
    /// bound.
    pub open spec fn games_valid(self) -> bool {
        forall|i: int|
            0 <= i < self.users@.len() ==> (#[trigger] self.users@[i]).1.valid(
                self.max_entity_level,
            )
    }

    /// The registry invariant: unique keys and valid games.
    pub open spec fn wf(self) -> bool {
        self.keys_unique() && self.games_valid()
    }

    /// Some entry is keyed by `user`.
    pub open spec fn contains_user(self, user: Seq<char>) -> bool {
        exists|i: int| 0 <= i < self.users@.len() && (#[trigger] self.users@[i]).0@ == user
    }

    /// The index of the entry keyed by `user` (meaningful only when
    /// `contains_user` holds; unique because keys are).
    pub open spec fn user_index(self, user: Seq<char>) -> int {
        choose|i: int| 0 <= i < self.users@.len() && (#[trigger] self.users@[i]).0@ == user
    }

    /// The game stored for `user`.
    pub open spec fn game_of(self, user: Seq<char>) -> Game {
        self.users@[self.user_index(user)].1
    }

    /// Creates an empty registry with the given configuration.
    pub fn new(max_entity_level: u8, max_user_balance: u64) -> (m: Main)
        ensures
            m.max_entity_level == max_entity_level,
            m.max_user_balance == max_user_balance,
            m.users@.len() == 0,
            m.wf(),
    {
        Main { max_entity_level, max_user_balance, users: Vec::new() }
    }

    /// Returns the position of `user`'s entry, if there is one.
    fn find_user(&self, user: &String) -> (r: Option<usize>)
        ensures
            match r {
                Some(i) => i < self.users@.len() && self.users@[i as int].0@ == user@,
                None => !self.contains_user(user@),
            },
    {
        let mut i: usize = 0;
        let n = self.users.len();
        while i < n
            invariant
                n == self.users@.len(),
                i <= n,
                forall|j: int| 0 <= j < i ==> (#[trigger] self.users@[j]).0@ != user@,
            decreases n - i,
        {
            let p = &self.users[i];
            if p.0 == *user {
                return Some(i);
            }
            i = i + 1;
        }
        None
    }

    /// Ensures `user` has an entry, inserting a fresh game when none
    /// exists. A registry that already knows `user` is left exactly as it
    /// was.
    pub fn validate_user(&mut self, user: String)
        requires
            old(self).wf(),
        ensures
            final(self).wf(),
            registry_step(*old(self), *final(self), user@),
            old(self).contains_user(user@) ==> *final(self) == *old(self),
            !old(self).contains_user(user@) ==> final(self).game_of(user@).is_fresh(),
            old(self).contains_user(user@) ==> final(self).game_of(user@) == old(self).game_of(
                user@,
            ),
    {
        let found = self.find_user(&user);
        match found {
            Some(i) => {
                proof {
                    lemma_user_index(*self, user@, i as int);
                }
            },
            None => {
                let ghost pre = *self;
                let g = Game::new();
                self.users.push((user, g));
                proof {
                    let n = pre.users@.len() as int;
                    assert(self.users@[n].0@ == pre.users@.push(
                        (self.users@[n].0, self.users@[n].1),
                    )[n].0@);
                    assert(forall|i: int|
                        0 <= i < n ==> (#[trigger] self.users@[i]) == pre.users@[i]);
                    assert(self.users@[n].1.valid(self.max_entity_level)) by {
                        assert(self.users@[n].1.is_fresh());
                    }
                    lemma_user_index(*self, self.users@[n].0@, n);
                }
            },
        }
    }

    /// Returns `user`'s balance, creating the account on first contact. A
    /// known account's state — and every other account — is left exactly as
    /// it was, so asking twice returns the same answer.
    pub fn get_balance(&mut self, user: String) -> (r: u64)
        requires
            old(self).wf(),
        ensures
            final(self).wf(),
            registry_step(*old(self), *final(self), user@),
            old(self).contains_user(user@) ==> *final(self) == *old(self),
            r == final(self).game_of(user@).balance,
            old(self).contains_user(user@) ==> r == old(self).game_of(user@).balance,
            !old(self).contains_user(user@) ==> r == STARTING_BALANCE,
    {
        self.validate_user(user.clone());
        let idx_opt = self.find_user(&user);
        let idx = idx_opt.unwrap();
        proof {
            lemma_user_index(*self, user@, idx as int);
        }
        let p = &self.users[idx];
        p.1.balance
    }

    /// Returns a copy of `user`'s entity stack, creating the account on
    /// first contact. A known account's state — and every other account —
    /// is left exactly as it was, so asking twice returns the same answer.
    pub fn get_entity_stack(&mut self, user: String) -> (r: Vec<u8>)
        requires
            old(self).wf(),
        ensures
            final(self).wf(),
            registry_step(*old(self), *final(self), user@),
            old(self).contains_user(user@) ==> *final(self) == *old(self),
            r@ == final(self).game_of(user@).entity_stack@,
            !old(self).contains_user(user@) ==> r@ == fresh_stack(),
    {
        self.validate_user(user.clone());
        let idx_opt = self.find_user(&user);
        let idx = idx_opt.unwrap();
        proof {
            lemma_user_index(*self, user@, idx as int);
        }
        let p = &self.users[idx];
        copy_stack(&p.1.entity_stack)
    }

    /// Returns the highest tier in `user`'s stack (`0` when it is empty),
    /// creating the account on first contact. A known account's state — and
    /// every other account — is left exactly as it was, so asking twice
    /// returns the same answer.
    pub fn get_max_tier_entity(&mut self, user: String) -> (r: u8)
        requires
            old(self).wf(),
        ensures
            final(self).wf(),
            registry_step(*old(self), *final(self), user@),
            old(self).contains_user(user@) ==> *final(self) == *old(self),
            is_max_tier(final(self).game_of(user@).entity_stack@, r),
            !old(self).contains_user(user@) ==> r == 0,
    {
        self.validate_user(user.clone());
        let idx_opt = self.find_user(&user);
        let idx = idx_opt.unwrap();
        proof {
            lemma_user_index(*self, user@, idx as int);
        }
        let p = &self.users[idx];
        let r = p.1.max_tier();
        proof {
            if !old(self).contains_user(user@) {
                assert(self.game_of(user@).entity_stack@ == fresh_stack());
                if r != 0 {
                    let j = choose|j: int|
                        0 <= j < fresh_stack().len() && fresh_stack()[j] == r;
                    assert(fresh_stack()[j] == 0);
                }
            }
        }
        r
    }

    /// Buys one entity of `tier` for `user`, creating the account on first
    /// contact. The game changes exactly as
    /// [`Game::buy_entity`] describes; every other account keeps its state.
    pub fn buy_entity(&mut self, user: String, tier: u8) -> (result: Result<(), GameError>)
        requires
            old(self).wf(),
        ensures
            final(self).wf(),
            registry_step(*old(self), *final(self), user@),
            (if old(self).contains_user(user@) {
                buy_post(
                    old(self).game_of(user@).balance,
                    old(self).game_of(user@).entity_stack@,
                    old(self).game_of(user@).last_click,
                    old(self).game_of(user@).current_click,
                    final(self).game_of(user@),
                    tier,
                    old(self).max_entity_level,
                    result,
                )
            } else {
                buy_post(
                    STARTING_BALANCE,
                    fresh_stack(),
                    0,
                    0,
                    final(self).game_of(user@),
                    tier,
                    old(self).max_entity_level,
                    result,
                )
            }),
    {
        self.validate_user(user.clone());
        let idx_opt = self.find_user(&user);
        let idx = idx_opt.unwrap();
        proof {
            lemma_user_index(*self, user@, idx as int);
        }
        let ghost m1 = *self;
        let max_level = self.max_entity_level;
        let (name, mut game) = self.users.remove(idx);
        let result = game.buy_entity(tier, max_level);
        self.users.insert(idx, (name, game));
        proof {
            lemma_replaced_game(m1, *self, user@, idx as int);
        }
        result
    }

    /// Merges the entities in `user`'s slots `st_slot` and `nd_slot`,
    /// creating the account on first contact. The game changes exactly as
    /// [`Game::merge_entities`] describes; every other account keeps its
    /// state.
    pub fn merge_entities(&mut self, user: String, st_slot: usize, nd_slot: usize) -> (result:
        Result<(), GameError>)
        requires
            old(self).wf(),
        ensures
            final(self).wf(),
            registry_step(*old(self), *final(self), user@),
            (if old(self).contains_user(user@) {
                merge_post(
                    old(self).game_of(user@).balance,
                    old(self).game_of(user@).entity_stack@,
                    old(self).game_of(user@).last_click,
                    old(self).game_of(user@).current_click,
                    final(self).game_of(user@),
                    st_slot,
                    nd_slot,
                    old(self).max_entity_level,
                    result,
                )
            } else {
                merge_post(
                    STARTING_BALANCE,
                    fresh_stack(),
                    0,
                    0,
                    final(self).game_of(user@),
                    st_slot,
                    nd_slot,
                    old(self).max_entity_level,
                    result,
                )
            }),
    {
        self.validate_user(user.clone());
        let idx_opt = self.find_user(&user);
        let idx = idx_opt.unwrap();
        proof {
            lemma_user_index(*self, user@, idx as int);
        }
        let ghost m1 = *self;
        let max_level = self.max_entity_level;
        let (name, mut game) = self.users.remove(idx);
        let result = game.merge_entities(st_slot, nd_slot, max_level);
        self.users.insert(idx, (name, game));
        proof {
            lemma_replaced_game(m1, *self, user@, idx as int);
        }
        result
    }

    /// Claims the periodic reward for `user` at time `now`, creating the
    /// account on first contact, and returns the new balance. The game
    /// changes exactly as [`Game::click`] describes; every other account
    /// keeps its state.
    pub fn click(&mut self, user: String, now: u64) -> (result: Result<u64, GameError>)
        requires
            old(self).wf(),
        ensures
            final(self).wf(),
            registry_step(*old(self), *final(self), user@),
            (if old(self).contains_user(user@) {
                click_post(
                    old(self).game_of(user@).balance,
                    old(self).game_of(user@).entity_stack@,
                    old(self).game_of(user@).last_click,
                    old(self).game_of(user@).current_click,
                    final(self).game_of(user@),
                    now,
                    result,
                )
            } else {
                click_post(
                    STARTING_BALANCE,
                    fresh_stack(),
                    0,
                    0,
                    final(self).game_of(user@),
                    now,
                    result,
                )
            }),
    {
        self.validate_user(user.clone());
        let idx_opt = self.find_user(&user);
        let idx = idx_opt.unwrap();
        proof {
            lemma_user_index(*self, user@, idx as int);
        }
        let ghost m1 = *self;
        let (name, mut game) = self.users.remove(idx);
        let result = game.click(now);
        self.users.insert(idx, (name, game));
        proof {
            lemma_replaced_game(m1, *self, user@, idx as int);
        }
        result
    }
}

impl Default for Main {
    /// An unconfigured registry: both bounds zero, no accounts.
    fn default() -> (m: Main)
        ensures
            m.max_entity_level == 0,
            m.max_user_balance == 0,
            m.users@.len() == 0,
            m.wf(),
    {
        Main { max_entity_level: 0, max_user_balance: 0, users: Vec::new() }
    }
}

/// Copies a stack of tier bytes.
fn copy_stack(stack: &Vec<u8>) -> (r: Vec<u8>)
    ensures
        r@ == stack@,
{
    let mut out: Vec<u8> = Vec::new();
    let mut i: usize = 0;
    let n = stack.len();
    while i < n
        invariant
            n == stack@.len(),
            i <= n,
            out@ == stack@.subrange(0, i as int),
        decreases n - i,
    {
        out.push(stack[i]);
        proof {
            assert(out@ =~= stack@.subrange(0, i + 1 as int));
        }
        i = i + 1;
    }
    proof {
        assert(stack@.subrange(0, n as int) =~= stack@);
    }
    out
}

/// An entry whose key is `user` sits at index `i`; because keys are unique,
/// `i` is the user's index and the entry's game is the user's game.
proof fn lemma_user_index(m: Main, user: Seq<char>, i: int)
    requires
        m.keys_unique(),
        0 <= i < m.users@.len(),
        m.users@[i].0@ == user,
    ensures
        m.contains_user(user),
        m.user_index(user) == i,
        m.game_of(user) == m.users@[i].1,
{
    assert(m.contains_user(user));
    let j = m.user_index(user);
    if j != i {
        if j < i {
            assert(m.users@[j].0@ != m.users@[i].0@);
        } else {
            assert(m.users@[i].0@ != m.users@[j].0@);
        }
        assert(false);
    }
}

/// After replacing the game at `user`'s index — key kept, everything else
/// untouched — the registry still satisfies its shape obligations, and the
/// user's stored game is the replacement.
proof fn lemma_replaced_game(m1: Main, m2: Main, user: Seq<char>, idx: int)
    requires
        m1.keys_unique(),
        0 <= idx < m1.users@.len(),
        m1.users@[idx].0@ == user,
        m2.users@ == m1.users@.remove(idx).insert(idx, (m1.users@[idx].0, m2.users@[idx].1)),
        m2.max_entity_level == m1.max_entity_level,
        m2.max_user_balance == m1.max_user_balance,
    ensures
        m2.keys_unique(),
        m2.users@.len() == m1.users@.len(),
        forall|i: int| 0 <= i < m1.users@.len() && i != idx ==> m2.users@[i] == m1.users@[i],
        m2.users@[idx].0 == m1.users@[idx].0,
        m2.contains_user(user),
        m2.user_index(user) == idx,
        m2.game_of(user) == m2.users@[idx].1,
{
    assert(m2.users@ =~= m1.users@.update(idx, (m1.users@[idx].0, m2.users@[idx].1)));
    lemma_user_index(m2, user, idx);
}

} // verus!
