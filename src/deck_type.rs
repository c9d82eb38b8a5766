//! Named kinds of decks.
use vstd::prelude::*;
use crate::card::{Card, Suit, Value};
use crate::deck::Deck;
use crate::deck_builder::{product, product_cards, repeated, standard_cards, standard_deck, two_jokers};
use crate::card::standard_suit_seq;

verus! {

/// The values a pinochle deck uses: Nine to Ace.
pub open spec fn pinochle_values() -> Seq<Value> {
    seq![Value::NINE, Value::TEN, Value::JACK, Value::QUEEN, Value::KING, Value::ACE]
}

/// A kind of deck that `build` lays out.
#[derive(Debug, Clone, PartialEq)]
pub enum DeckType {
    Standard52,
    WithJokers,
    Pinochle,
    Double52,
    Custom(Vec<Card>),
}

impl DeckType {
    /// The cards of this kind of deck, top first.
    pub open spec fn cards_spec(self) -> Seq<Card> {
        match self {
            DeckType::Standard52 => standard_deck(),
            DeckType::WithJokers => standard_deck() + two_jokers(),
            DeckType::Double52 => repeated(standard_deck(), 2),
            DeckType::Pinochle => repeated(product_cards(standard_suit_seq(), pinochle_values()), 2),
            DeckType::Custom(cards) => cards@,
        }
    }

    pub fn build(self) -> (r: Deck)
        ensures
            r@ == self.cards_spec(),
    {
        match self {
            DeckType::Standard52 => Deck::from_cards(standard_cards()),
            DeckType::WithJokers => {
                let mut cards = standard_cards();
                cards.push(Card::joker());
                cards.push(Card::joker());
                assert(cards@ == standard_deck() + two_jokers());
                Deck::from_cards(cards)
            },
            DeckType::Double52 => {
                let mut cards = standard_cards();
                let mut second = standard_cards();
                cards.append(&mut second);
                assert(cards@ == repeated(standard_deck(), 2)) by {
                    assert(repeated(standard_deck(), 0) == Seq::<Card>::empty());
                    assert(repeated(standard_deck(), 1) == standard_deck());
                }
                Deck::from_cards(cards)
            },
            DeckType::Pinochle => {
                let suits = Suit::standard_suits();
                let values = vec![
                    Value::NINE,
                    Value::TEN,
                    Value::JACK,
                    Value::QUEEN,
                    Value::KING,
                    Value::ACE,
                ];
                assert(values@ == pinochle_values());
                let mut cards = product(&suits, &values);
                let mut second = product(&suits, &values);
                cards.append(&mut second);
                assert(cards@ == repeated(product_cards(standard_suit_seq(), pinochle_values()), 2))
                    by {
                    let p = product_cards(standard_suit_seq(), pinochle_values());
                    assert(repeated(p, 0) == Seq::<Card>::empty());
                    assert(repeated(p, 1) == p);
                }
                Deck::from_cards(cards)
            },
            DeckType::Custom(cards) => Deck::from_cards(cards),
        }
    }
}

} // verus!
