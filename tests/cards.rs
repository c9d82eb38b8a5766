use card_games::card::{Card, Suit, Value};
use card_games::deck::Deck;
use card_games::deck_builder::DeckBuilder;
use card_games::deck_type::DeckType;
use card_games::hand::Hand;

#[test]
fn card_display_is_correct() {
    let card = Card::new(Suit::HEARTS, Value::TEN);
    assert_eq!(card.to_string(), "Ten of ♥");
}

#[test]
fn card_fields_are_set_correctly() {
    let card = Card::new(Suit::DIAMONDS, Value::QUEEN);
    assert_eq!(*card.suit(), Suit::DIAMONDS);
    assert_eq!(*card.value(), Value::QUEEN);
}

#[test]
fn joker_card_is_detected() {
    let joker = Card::joker();
    assert!(joker.is_joker());
    assert_eq!(joker.to_string(), "Joker");
}

#[test]
fn build_standard_52() {
    let deck = DeckBuilder::new().standard52().build();
    assert_eq!(deck.remaining_cards(), 52);
    assert!(!deck.into_cards().into_iter().any(|c| c.is_joker()));
}

#[test]
fn build_with_jokers() {
    let deck = DeckBuilder::new().standard52().with_jokers().build();
    let jokers = deck.into_cards().into_iter().filter(|c| c.is_joker()).count();
    assert_eq!(jokers, 2);
}

#[test]
fn build_repeated_deck() {
    let deck = DeckBuilder::new().standard52().repeat(2).build();
    assert_eq!(deck.remaining_cards(), 104);
}

#[test]
fn build_repeated_with_jokers() {
    let deck = DeckBuilder::new()
        .standard52()
        .with_jokers()
        .repeat(3)
        .build();
    let jokers = deck.into_cards().into_iter().filter(|c| c.is_joker()).count();
    assert_eq!(jokers, 6);
}

#[test]
fn standard52_contains_no_jokers() {
    let deck = Deck::new(DeckType::Standard52);
    assert!(!deck.into_cards().into_iter().any(|c| c.is_joker()));
}

#[test]
fn with_jokers_includes_two_jokers() {
    let deck = Deck::new(DeckType::WithJokers);
    let jokers = deck.into_cards().into_iter().filter(|c| c.is_joker()).count();
    assert_eq!(jokers, 2);
}

#[test]
fn pinochle_has_48_cards() {
    let deck = Deck::new(DeckType::Pinochle);
    assert_eq!(deck.remaining_cards(), 48);
}

#[test]
fn double52_has_104_cards() {
    let deck = Deck::new(DeckType::Double52);
    assert_eq!(deck.remaining_cards(), 104);
}

#[test]
fn hand_adds_and_clears_cards() {
    let mut hand = Hand::new();
    hand.add(Card::new(Suit::SPADES, Value::ACE));
    assert_eq!(hand.cards().len(), 1);

    hand.clear_hand();
    assert!(hand.cards().is_empty());
}

#[test]
fn hand_len_and_is_empty_work() {
    let mut hand = Hand::new();
    assert!(hand.is_empty());

    hand.add(Card::new(Suit::SPADES, Value::KING));
    assert_eq!(hand.len(), 1);
    assert!(!hand.is_empty());
}

#[test]
fn hand_display_formats_all_cards() {
    let mut hand = Hand::new();
    hand.add(Card::new(Suit::HEARTS, Value::TEN));
    hand.add(Card::new(Suit::CLUBS, Value::ACE));
    let output = hand.to_string();
    assert!(output.contains("Ten of ♥"));
    assert!(output.contains("Ace of ♣"));
}
