use clicker_game::errors::GameError;
use clicker_game::game::Game;

fn game(balance: u64, stack: Vec<u8>) -> Game {
    Game { balance, entity_stack: stack, last_click: 0, current_click: 0 }
}

#[test]
fn get_balance() {
    let game = Game { balance: 1000, entity_stack: vec![0; 12], last_click: 0, current_click: 0 };

    assert_eq!(1000, game.balance);
}

#[test]
fn get_entity_stack() {
    let game = Game { balance: 1000, entity_stack: vec![0; 12], last_click: 0, current_click: 0 };

    assert_eq!(vec![0u8; 12], game.entity_stack);
}

#[test]
fn buy_entity() {
    let mut game = Game {
        balance: 3000,
        entity_stack: vec![0, 0, 2, 0, 0, 0, 0, 0, 0, 0, 0, 0],
        last_click: 0,
        current_click: 0,
    };

    game.buy_entity(2, 10).unwrap();
    assert_eq!(2, game.entity_stack[0]);
}

#[test]
#[should_panic]
fn buy_entity2() {
    let mut game = Game {
        balance: 2000,
        entity_stack: vec![1, 1, 2, 2, 3, 4, 5, 1, 1, 2, 3, 4],
        last_click: 0,
        current_click: 0,
    };

    game.buy_entity(1, 10).unwrap()
}

#[test]
fn fresh_game_state() {
    let g = Game::new();
    assert_eq!(1000, g.balance);
    assert_eq!(vec![0u8; 12], g.entity_stack);
    assert_eq!(0, g.last_click);
    assert_eq!(0, g.current_click);
}

#[test]
fn buy_debits_cost_and_fills_first_empty_slot() {
    let mut g = game(3000, vec![0, 0, 2, 0, 0, 0, 0, 0, 0, 0, 0, 0]);
    assert_eq!(Ok(()), g.buy_entity(2, 10));
    assert_eq!(vec![2, 0, 2, 0, 0, 0, 0, 0, 0, 0, 0, 0], g.entity_stack);
    assert_eq!(1000, g.balance);
}

#[test]
fn buy_needs_an_owned_entity_of_the_tier() {
    let mut g = game(5000, vec![0; 12]);
    assert_eq!(
        Err(GameError::InsufficientTier { owned_max: 0, requested: 1 }),
        g.buy_entity(1, 10)
    );
    assert_eq!(5000, g.balance);
    assert_eq!(vec![0u8; 12], g.entity_stack);
}

#[test]
fn buy_needs_funds() {
    let mut g = game(500, vec![1, 0, 0, 0, 0, 0, 0, 0, 0, 0, 0, 0]);
    assert_eq!(
        Err(GameError::InsufficientFunds { balance: 500, cost: 1000 }),
        g.buy_entity(1, 10)
    );
    assert_eq!(500, g.balance);
    assert_eq!(vec![1, 0, 0, 0, 0, 0, 0, 0, 0, 0, 0, 0], g.entity_stack);
}

#[test]
fn buy_respects_the_configured_maximum_tier() {
    let mut g = game(50_000, vec![5, 0, 0, 0, 0, 0, 0, 0, 0, 0, 0, 0]);
    assert_eq!(
        Err(GameError::TierTooHigh { requested: 4, max_level: 3 }),
        g.buy_entity(4, 3)
    );
    assert_eq!(50_000, g.balance);
}

#[test]
fn buy_into_a_full_stack_changes_nothing() {
    let mut g = game(2000, vec![1, 1, 2, 2, 3, 4, 5, 1, 1, 2, 3, 4]);
    assert_eq!(Err(GameError::StackFull), g.buy_entity(1, 10));
    assert_eq!(2000, g.balance);
    assert_eq!(vec![1, 1, 2, 2, 3, 4, 5, 1, 1, 2, 3, 4], g.entity_stack);
}

#[test]
fn merge_promotes_and_empties() {
    let mut g = game(1000, vec![3, 3, 0, 0, 0, 0, 0, 0, 0, 0, 0, 0]);
    assert_eq!(Ok(()), g.merge_entities(0, 1, 10));
    assert_eq!(vec![0, 4, 0, 0, 0, 0, 0, 0, 0, 0, 0, 0], g.entity_stack);
    assert_eq!(1000, g.balance);
}

#[test]
fn merge_of_mismatched_tiers_changes_nothing() {
    let mut g = game(1000, vec![3, 2, 0, 0, 0, 0, 0, 0, 0, 0, 0, 0]);
    assert_eq!(
        Err(GameError::TierMismatch { first: 3, second: 2 }),
        g.merge_entities(0, 1, 10)
    );
    assert_eq!(vec![3, 2, 0, 0, 0, 0, 0, 0, 0, 0, 0, 0], g.entity_stack);
}

#[test]
fn merge_checks_slot_bounds() {
    let mut g = game(1000, vec![3, 3, 0, 0, 0, 0, 0, 0, 0, 0, 0, 0]);
    assert_eq!(Err(GameError::SlotOutOfRange { slot: 12 }), g.merge_entities(12, 1, 10));
    assert_eq!(Err(GameError::SlotOutOfRange { slot: 99 }), g.merge_entities(0, 99, 10));
    assert_eq!(vec![3, 3, 0, 0, 0, 0, 0, 0, 0, 0, 0, 0], g.entity_stack);
}

#[test]
fn merge_of_two_empty_slots_is_refused() {
    let mut g = game(1000, vec![0; 12]);
    assert_eq!(Err(GameError::EmptySlot), g.merge_entities(0, 1, 10));
    assert_eq!(vec![0u8; 12], g.entity_stack);
}

#[test]
fn merge_at_the_tier_cap_is_refused() {
    let mut g = game(1000, vec![3, 3, 0, 0, 0, 0, 0, 0, 0, 0, 0, 0]);
    assert_eq!(
        Err(GameError::TierCapExceeded { tier: 3, max_level: 3 }),
        g.merge_entities(0, 1, 3)
    );
    assert_eq!(vec![3, 3, 0, 0, 0, 0, 0, 0, 0, 0, 0, 0], g.entity_stack);
}

#[test]
fn first_claim_pays_the_sum_of_tiers_times_the_multiplier() {
    let mut g = game(1000, vec![3, 4, 0, 0, 0, 0, 0, 0, 0, 0, 0, 0]);
    assert_eq!(Ok(1700), g.click(77));
    assert_eq!(1700, g.balance);
    assert_eq!(77, g.last_click);
    assert_eq!(77, g.current_click);
}

#[test]
fn claim_during_cooldown_changes_nothing() {
    let mut g = game(1000, vec![3, 4, 0, 0, 0, 0, 0, 0, 0, 0, 0, 0]);
    assert_eq!(Ok(1700), g.click(77));
    assert_eq!(
        Err(GameError::ClickTooSoon { last_click: 77, now: 78 }),
        g.click(78)
    );
    assert_eq!(1700, g.balance);
    assert_eq!(77, g.last_click);
}

#[test]
fn claim_succeeds_again_after_the_cooldown() {
    let mut g = game(0, vec![1, 0, 0, 0, 0, 0, 0, 0, 0, 0, 0, 0]);
    assert_eq!(Ok(100), g.click(1_000));
    assert_eq!(Ok(200), g.click(1_000 + 60_000_000_000));
    assert_eq!(200, g.balance);
}

#[test]
fn claim_saturates_an_almost_full_balance() {
    let mut g = game(u64::MAX - 50, vec![1, 0, 0, 0, 0, 0, 0, 0, 0, 0, 0, 0]);
    assert_eq!(Ok(u64::MAX), g.click(9));
    assert_eq!(u64::MAX, g.balance);
}

#[test]
fn max_tier_scans_the_whole_stack() {
    let g = game(0, vec![1, 7, 2, 0, 0, 0, 0, 0, 5, 0, 0, 3]);
    assert_eq!(7, g.max_tier());
    let empty = game(0, vec![0; 12]);
    assert_eq!(0, empty.max_tier());
}
