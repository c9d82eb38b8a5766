use card_games::card::{Card, Suit, Value};
use card_games::game::determine_result;
use card_games::hand::Hand;
use card_games::rules::{BlackjackRules, hand_score, is_blackjack, is_bust};
use card_games::types::GameResult;

#[test]
fn rules_blackjack_scoring_with_ace_adjusts_correctly() {
    let mut hand = Hand::new();
    hand.add(Card::new(Suit::DIAMONDS, Value::ACE));
    hand.add(Card::new(Suit::SPADES, Value::NINE));
    hand.add(Card::new(Suit::HEARTS, Value::NINE));

    assert_eq!(hand_score(hand.cards()), 19);
}

#[test]
fn rules_blackjack_detects_blackjack_hand() {
    let mut hand = Hand::new();
    hand.add(Card::new(Suit::SPADES, Value::ACE));
    hand.add(Card::new(Suit::HEARTS, Value::KING));

    assert!(is_blackjack(hand.cards()));
}

#[test]
fn rules_hand_with_multiple_aces_adjusts_correctly() {
    let mut hand = Hand::new();
    hand.add(Card::new(Suit::HEARTS, Value::ACE));
    hand.add(Card::new(Suit::SPADES, Value::ACE));
    hand.add(Card::new(Suit::CLUBS, Value::NINE));

    assert_eq!(hand_score(hand.cards()), 21);
}

#[test]
fn rules_hand_busts_without_aces() {
    let mut hand = Hand::new();
    hand.add(Card::new(Suit::SPADES, Value::TEN));
    hand.add(Card::new(Suit::HEARTS, Value::KING));
    hand.add(Card::new(Suit::DIAMONDS, Value::FIVE));

    assert!(is_bust(hand.cards()));
}

#[test]
fn rules_ace_prevents_bust() {
    let mut hand = Hand::new();
    hand.add(Card::new(Suit::SPADES, Value::TEN));
    hand.add(Card::new(Suit::HEARTS, Value::SIX));
    hand.add(Card::new(Suit::DIAMONDS, Value::ACE));

    assert_eq!(hand_score(hand.cards()), 17);
    assert!(!is_bust(hand.cards()));
}

#[test]
fn rules_hand_with_three_cards_equals_21() {
    let mut hand = Hand::new();
    hand.add(Card::new(Suit::HEARTS, Value::SEVEN));
    hand.add(Card::new(Suit::CLUBS, Value::SEVEN));
    hand.add(Card::new(Suit::SPADES, Value::SEVEN));

    assert_eq!(hand_score(hand.cards()), 21);
    assert!(!is_blackjack(hand.cards()));
}

#[test]
fn rules_two_cards_can_bust_and_not_be_blackjack() {
    let mut hand = Hand::new();
    hand.add(Card::new(Suit::HEARTS, Value::JACK));
    hand.add(Card::new(Suit::SPADES, Value::QUEEN));

    assert_eq!(hand_score(hand.cards()), 20);
    assert!(!is_blackjack(hand.cards()));
    assert!(!is_bust(hand.cards()));
}

#[test]
fn blackjack_rules_blackjack_scoring_with_ace_adjusts_correctly() {
    let mut hand = Hand::new();
    hand.add(Card::new(Suit::DIAMONDS, Value::ACE));
    hand.add(Card::new(Suit::SPADES, Value::NINE));
    hand.add(Card::new(Suit::HEARTS, Value::NINE));

    assert_eq!(BlackjackRules::hand_score(hand.cards()), 19);
}

#[test]
fn blackjack_rules_blackjack_detects_blackjack_hand() {
    let mut hand = Hand::new();
    hand.add(Card::new(Suit::SPADES, Value::ACE));
    hand.add(Card::new(Suit::HEARTS, Value::KING));

    assert!(BlackjackRules::is_blackjack(hand.cards()));
}

#[test]
fn blackjack_rules_hand_with_multiple_aces_adjusts_correctly() {
    let mut hand = Hand::new();
    hand.add(Card::new(Suit::HEARTS, Value::ACE));
    hand.add(Card::new(Suit::SPADES, Value::ACE));
    hand.add(Card::new(Suit::CLUBS, Value::NINE));

    assert_eq!(BlackjackRules::hand_score(hand.cards()), 21);
}

#[test]
fn blackjack_rules_hand_busts_without_aces() {
    let mut hand = Hand::new();
    hand.add(Card::new(Suit::SPADES, Value::TEN));
    hand.add(Card::new(Suit::HEARTS, Value::KING));
    hand.add(Card::new(Suit::DIAMONDS, Value::FIVE));

    assert!(BlackjackRules::is_bust(hand.cards()));
}

#[test]
fn blackjack_rules_ace_prevents_bust() {
    let mut hand = Hand::new();
    hand.add(Card::new(Suit::SPADES, Value::TEN));
    hand.add(Card::new(Suit::HEARTS, Value::SIX));
    hand.add(Card::new(Suit::DIAMONDS, Value::ACE));

    assert_eq!(BlackjackRules::hand_score(hand.cards()), 17);
    assert!(!BlackjackRules::is_bust(hand.cards()));
}

#[test]
fn blackjack_rules_hand_with_three_cards_equals_21() {
    let mut hand = Hand::new();
    hand.add(Card::new(Suit::HEARTS, Value::SEVEN));
    hand.add(Card::new(Suit::CLUBS, Value::SEVEN));
    hand.add(Card::new(Suit::SPADES, Value::SEVEN));

    assert_eq!(BlackjackRules::hand_score(hand.cards()), 21);
    assert!(!BlackjackRules::is_blackjack(hand.cards()));
}

#[test]
fn blackjack_rules_two_cards_can_bust_and_not_be_blackjack() {
    let mut hand = Hand::new();
    hand.add(Card::new(Suit::HEARTS, Value::JACK));
    hand.add(Card::new(Suit::SPADES, Value::QUEEN));

    assert_eq!(BlackjackRules::hand_score(hand.cards()), 20);
    assert!(!BlackjackRules::is_blackjack(hand.cards()));
    assert!(!BlackjackRules::is_bust(hand.cards()));
}

#[test]
fn test_game_result_determine() {
    assert_eq!(GameResult::determine(21, 20), GameResult::PlayerWin);
    assert_eq!(GameResult::determine(20, 21), GameResult::DealerWin);
    assert_eq!(GameResult::determine(21, 21), GameResult::Push);
}

#[test]
fn determine_result_returns_dealer_win_if_player_busts() {
    let result = determine_result(22, 18);
    assert_eq!(result, GameResult::DealerWin);
}
