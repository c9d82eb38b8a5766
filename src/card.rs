//! Playing cards: suits, values and the card itself.
use vstd::prelude::*;

verus! {

/// The suit of a playing card; `JOKER` marks the suit of a joker.
#[allow(non_camel_case_types)]
#[derive(Debug, Clone, Copy, PartialEq, Eq, Structural)]
pub enum Suit {
    CLUBS,
    DIAMONDS,
    HEARTS,
    SPADES,
    JOKER,
}

/// The text shown for a suit.
pub open spec fn suit_text(s: Suit) -> Seq<char> {
    match s {
        Suit::CLUBS => "♣"@,
        Suit::DIAMONDS => "♦"@,
        Suit::HEARTS => "♥"@,
        Suit::SPADES => "♠"@,
        Suit::JOKER => "Joker"@,
    }
}

/// The four standard suits, in declaration order.
pub open spec fn standard_suit_seq() -> Seq<Suit> {
    seq![Suit::CLUBS, Suit::DIAMONDS, Suit::HEARTS, Suit::SPADES]
}

impl Suit {
    /// The four standard suits (jokers excluded), in declaration order.
    pub fn standard_suits() -> (r: Vec<Suit>)
        ensures
            r@ == standard_suit_seq(),
    {
        let r = vec![Suit::CLUBS, Suit::DIAMONDS, Suit::HEARTS, Suit::SPADES];
        assert(r@ == standard_suit_seq());
        r
    }

    /// Hearts and diamonds are red.
    pub fn is_red(&self) -> (r: bool)
        ensures
            r == (*self == Suit::DIAMONDS || *self == Suit::HEARTS),
    {
        matches!(self, Suit::DIAMONDS | Suit::HEARTS)
    }

    /// Clubs and spades are black.
    pub fn is_black(&self) -> (r: bool)
        ensures
            r == (*self == Suit::CLUBS || *self == Suit::SPADES),
    {
        matches!(self, Suit::CLUBS | Suit::SPADES)
    }

    /// The symbol of the suit.
    pub fn to_string(&self) -> (r: String)
        ensures
            r@ == suit_text(*self),
    {
        match self {
            Suit::CLUBS => String::from_str("♣"),
            Suit::DIAMONDS => String::from_str("♦"),
            Suit::HEARTS => String::from_str("♥"),
            Suit::SPADES => String::from_str("♠"),
            Suit::JOKER => String::from_str("Joker"),
        }
    }
}

/// The face value of a playing card; `JOKER` marks the value of a joker.
#[allow(non_camel_case_types)]
#[derive(Debug, Clone, Copy, PartialEq, Eq, Structural)]
pub enum Value {
    ACE,
    TWO,
    THREE,
    FOUR,
    FIVE,
    SIX,
    SEVEN,
    EIGHT,
    NINE,
    TEN,
    JACK,
    QUEEN,
    KING,
    JOKER,
}

/// The rank of a value: Ace is 1, Two to Ten their number, Jack 11, Queen
/// 12, King 13; a joker has none.
pub open spec fn rank_of(v: Value) -> Option<u8> {
    match v {
        Value::ACE => Some(1),
        Value::TWO => Some(2),
        Value::THREE => Some(3),
        Value::FOUR => Some(4),
        Value::FIVE => Some(5),
        Value::SIX => Some(6),
        Value::SEVEN => Some(7),
        Value::EIGHT => Some(8),
        Value::NINE => Some(9),
        Value::TEN => Some(10),
        Value::JACK => Some(11),
        Value::QUEEN => Some(12),
        Value::KING => Some(13),
        Value::JOKER => None,
    }
}

/// The name shown for a value.
pub open spec fn value_text(v: Value) -> Seq<char> {
    match v {
        Value::ACE => "Ace"@,
        Value::TWO => "Two"@,
        Value::THREE => "Three"@,
        Value::FOUR => "Four"@,
        Value::FIVE => "Five"@,
        Value::SIX => "Six"@,
        Value::SEVEN => "Seven"@,
        Value::EIGHT => "Eight"@,
        Value::NINE => "Nine"@,
        Value::TEN => "Ten"@,
        Value::JACK => "Jack"@,
        Value::QUEEN => "Queen"@,
        Value::KING => "King"@,
        Value::JOKER => "Joker"@,
    }
}

/// The thirteen standard values from Ace to King.
pub open spec fn standard_value_seq() -> Seq<Value> {
    seq![
        Value::ACE,
        Value::TWO,
        Value::THREE,
        Value::FOUR,
        Value::FIVE,
        Value::SIX,
        Value::SEVEN,
        Value::EIGHT,
        Value::NINE,
        Value::TEN,
        Value::JACK,
        Value::QUEEN,
        Value::KING,
    ]
}

pub open spec fn is_face_value(v: Value) -> bool {
    v == Value::JACK || v == Value::QUEEN || v == Value::KING
}

/// Two through Ten.
pub open spec fn is_numeric_value(v: Value) -> bool {
    match rank_of(v) {
        Some(n) => 2 <= n <= 10,
        None => false,
    }
}

impl Value {
    /// The thirteen standard values (jokers excluded), from Ace to King.
    pub fn standard_values() -> (r: Vec<Value>)
        ensures
            r@ == standard_value_seq(),
    {
        let r = vec![
            Value::ACE,
            Value::TWO,
            Value::THREE,
            Value::FOUR,
            Value::FIVE,
            Value::SIX,
            Value::SEVEN,
            Value::EIGHT,
            Value::NINE,
            Value::TEN,
            Value::JACK,
            Value::QUEEN,
            Value::KING,
        ];
        assert(r@ == standard_value_seq());
        r
    }

    /// Jack, Queen and King are face cards.
    pub fn is_face_card(&self) -> (r: bool)
        ensures
            r == is_face_value(*self),
    {
        matches!(self, Value::JACK | Value::QUEEN | Value::KING)
    }

    /// Two through Ten are numeric.
    pub fn is_numeric(&self) -> (r: bool)
        ensures
            r == is_numeric_value(*self),
    {
        matches!(
            self,
            Value::TWO | Value::THREE | Value::FOUR | Value::FIVE | Value::SIX | Value::SEVEN
                | Value::EIGHT | Value::NINE | Value::TEN
        )
    }

    pub fn is_ace(&self) -> (r: bool)
        ensures
            r == (*self == Value::ACE),
    {
        matches!(self, Value::ACE)
    }

    /// The rank of the value (Ace = 1, ..., King = 13), `None` for a joker.
    pub fn rank(&self) -> (r: Option<u8>)
        ensures
            r == rank_of(*self),
    {
        match self {
            Value::ACE => Some(1),
            Value::TWO => Some(2),
            Value::THREE => Some(3),
            Value::FOUR => Some(4),
            Value::FIVE => Some(5),
            Value::SIX => Some(6),
            Value::SEVEN => Some(7),
            Value::EIGHT => Some(8),
            Value::NINE => Some(9),
            Value::TEN => Some(10),
            Value::JACK => Some(11),
            Value::QUEEN => Some(12),
            Value::KING => Some(13),
            Value::JOKER => None,
        }
    }

    /// The name of the value.
    pub fn to_string(&self) -> (r: String)
        ensures
            r@ == value_text(*self),
    {
        match self {
            Value::ACE => String::from_str("Ace"),
            Value::TWO => String::from_str("Two"),
            Value::THREE => String::from_str("Three"),
            Value::FOUR => String::from_str("Four"),
            Value::FIVE => String::from_str("Five"),
            Value::SIX => String::from_str("Six"),
            Value::SEVEN => String::from_str("Seven"),
            Value::EIGHT => String::from_str("Eight"),
            Value::NINE => String::from_str("Nine"),
            Value::TEN => String::from_str("Ten"),
            Value::JACK => String::from_str("Jack"),
            Value::QUEEN => String::from_str("Queen"),
            Value::KING => String::from_str("King"),
            Value::JOKER => String::from_str("Joker"),
        }
    }
}

/// A playing card: a suit and a value.
#[derive(Debug, Clone, Copy, PartialEq, Eq, Structural)]
pub struct Card {
    suit: Suit,
    value: Value,
}

/// The text shown for a card: "Joker", or "<value> of <suit>".
pub open spec fn card_text(c: Card) -> Seq<char> {
    if c.value_of() == Value::JOKER {
        "Joker"@
    } else {
        value_text(c.value_of()) + " of "@ + suit_text(c.suit_of())
    }
}

/// The card with the given suit and value.
pub closed spec fn card_of(suit: Suit, value: Value) -> Card {
    Card { suit, value }
}

/// A card is determined by its suit and value.
pub broadcast proof fn lemma_card_of_parts(suit: Suit, value: Value)
    ensures
        (#[trigger] card_of(suit, value)).suit_of() == suit,
        card_of(suit, value).value_of() == value,
{
}

pub broadcast proof fn lemma_card_parts(c: Card)
    ensures
        #[trigger] card_of(c.suit_of(), c.value_of()) == c,
{
}

pub broadcast group group_card_lemmas {
    lemma_card_of_parts,
    lemma_card_parts,
}

impl Card {
    pub closed spec fn value_of(self) -> Value {
        self.value
    }

    pub closed spec fn suit_of(self) -> Suit {
        self.suit
    }

    pub fn new(suit: Suit, value: Value) -> (r: Card)
        ensures
            r == card_of(suit, value),
            r.suit_of() == suit,
            r.value_of() == value,
    {
        Card { suit, value }
    }

    pub fn value(&self) -> (r: &Value)
        ensures
            *r == self.value_of(),
    {
        &self.value
    }

    pub fn suit(&self) -> (r: &Suit)
        ensures
            *r == self.suit_of(),
    {
        &self.suit
    }

    /// The joker card.
    pub fn joker() -> (r: Self)
        ensures
            r == card_of(Suit::JOKER, Value::JOKER),
            r.suit_of() == Suit::JOKER,
            r.value_of() == Value::JOKER,
    {
        Self { suit: Suit::JOKER, value: Value::JOKER }
    }

    pub fn is_joker(&self) -> (r: bool)
        ensures
            r == (self.value_of() == Value::JOKER),
    {
        matches!(self.value, Value::JOKER)
    }

    pub fn is_face_card(&self) -> (r: bool)
        ensures
            r == is_face_value(self.value_of()),
    {
        self.value.is_face_card()
    }

    pub fn is_red(&self) -> (r: bool)
        ensures
            r == (self.suit_of() == Suit::DIAMONDS || self.suit_of() == Suit::HEARTS),
    {
        self.suit.is_red()
    }

    pub fn is_black(&self) -> (r: bool)
        ensures
            r == (self.suit_of() == Suit::CLUBS || self.suit_of() == Suit::SPADES),
    {
        self.suit.is_black()
    }

    /// The rank of the card, `None` for a joker.
    pub fn rank(&self) -> (r: Option<u8>)
        ensures
            r == rank_of(self.value_of()),
    {
        self.value.rank()
    }

    /// "Joker" for a joker, else "<value> of <suit>" (e.g. "Ten of ♥").
    pub fn to_string(&self) -> (r: String)
        ensures
            r@ == card_text(*self),
    {
        if self.is_joker() {
            String::from_str("Joker")
        } else {
            let mut s = self.value.to_string();
            s.append(" of ");
            let suit = self.suit.to_string();
            s.append(suit.as_str());
            s
        }
    }
}

} // verus!
