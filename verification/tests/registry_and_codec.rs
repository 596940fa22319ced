use clicker_game::codec::decode_game;
use clicker_game::codec::encode_game;
use clicker_game::errors::GameError;
use clicker_game::game::Game;
use clicker_game::registry::Main;

#[test]
fn first_contact_creates_a_fresh_account() {
    let mut m = Main::new(10, 20_000);
    assert_eq!(1000, m.get_balance(String::from("alice")));
    assert_eq!(vec![0u8; 12], m.get_entity_stack(String::from("alice")));
    assert_eq!(0, m.get_max_tier_entity(String::from("alice")));
    assert_eq!(1, m.users.len());
}

#[test]
fn validate_user_inserts_each_account_once() {
    let mut m = Main::new(10, 20_000);
    m.validate_user(String::from("alice"));
    m.validate_user(String::from("alice"));
    m.validate_user(String::from("bob"));
    assert_eq!(2, m.users.len());
}

#[test]
fn queries_do_not_change_known_accounts() {
    let mut m = Main::new(10, 20_000);
    let first = m.get_balance(String::from("alice"));
    let second = m.get_balance(String::from("alice"));
    assert_eq!(first, second);
    assert_eq!(1, m.users.len());
}

#[test]
fn accounts_are_independent() {
    let mut m = Main::new(10, 20_000);
    m.validate_user(String::from("alice"));
    m.users[0].1.entity_stack[0] = 1;
    assert_eq!(Ok(1100), m.click(String::from("alice"), 5));
    assert_eq!(1100, m.get_balance(String::from("alice")));
    assert_eq!(1000, m.get_balance(String::from("bob")));
}

#[test]
fn registry_buy_and_merge_flow() {
    let mut m = Main::new(10, 20_000);
    // A fresh account owns nothing, so no purchase can succeed yet; earn
    // entities by claiming first.
    assert_eq!(
        Err(GameError::InsufficientTier { owned_max: 0, requested: 1 }),
        m.buy_entity(String::from("alice"), 1)
    );
    // Give the account a tier-1 entity through a direct slot view.
    m.users[0].1.entity_stack[0] = 1;
    assert_eq!(Ok(()), m.buy_entity(String::from("alice"), 1));
    assert_eq!(
        vec![1, 1, 0, 0, 0, 0, 0, 0, 0, 0, 0, 0],
        m.get_entity_stack(String::from("alice"))
    );
    assert_eq!(Ok(()), m.merge_entities(String::from("alice"), 0, 1));
    assert_eq!(
        vec![0, 2, 0, 0, 0, 0, 0, 0, 0, 0, 0, 0],
        m.get_entity_stack(String::from("alice"))
    );
    assert_eq!(2, m.get_max_tier_entity(String::from("alice")));
    assert_eq!(0, m.get_balance(String::from("alice")));
}

#[test]
fn registry_click_is_time_gated() {
    let mut m = Main::new(10, 20_000);
    assert_eq!(Ok(1000), m.click(String::from("alice"), 50));
    assert_eq!(
        Err(GameError::ClickTooSoon { last_click: 50, now: 60 }),
        m.click(String::from("alice"), 60)
    );
    assert_eq!(Ok(1000), m.click(String::from("alice"), 50 + 60_000_000_000));
}

#[test]
fn default_registry_is_unconfigured_and_empty() {
    let m = Main::default();
    assert_eq!(0, m.max_entity_level);
    assert_eq!(0, m.max_user_balance);
    assert_eq!(0, m.users.len());
}

#[test]
fn encode_then_decode_reproduces_the_game() {
    let g = Game {
        balance: 123_456_789,
        entity_stack: vec![1, 0, 2, 0, 3, 0, 4, 0, 5, 0, 6, 7],
        last_click: 55_555,
        current_click: 66_666,
    };
    let bytes = encode_game(&g);
    assert_eq!(36, bytes.len());
    let back = decode_game(&bytes).unwrap();
    assert_eq!(g.balance, back.balance);
    assert_eq!(g.entity_stack, back.entity_stack);
    assert_eq!(g.last_click, back.last_click);
    assert_eq!(g.current_click, back.current_click);
}

#[test]
fn encoding_is_little_endian_fields_in_order() {
    let g = Game {
        balance: 1,
        entity_stack: vec![9, 0, 0, 0, 0, 0, 0, 0, 0, 0, 0, 8],
        last_click: 2,
        current_click: 256,
    };
    let bytes = encode_game(&g);
    let mut expected = vec![1, 0, 0, 0, 0, 0, 0, 0];
    expected.extend_from_slice(&[9, 0, 0, 0, 0, 0, 0, 0, 0, 0, 0, 8]);
    expected.extend_from_slice(&[2, 0, 0, 0, 0, 0, 0, 0]);
    expected.extend_from_slice(&[0, 1, 0, 0, 0, 0, 0, 0]);
    assert_eq!(expected, bytes);
}

#[test]
fn decode_refuses_any_other_length() {
    assert!(decode_game(&vec![0u8; 35]).is_none());
    assert!(decode_game(&vec![0u8; 37]).is_none());
    assert!(decode_game(&Vec::new()).is_none());
}
