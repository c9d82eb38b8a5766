//! A fluent builder for custom decks.
use vstd::prelude::*;
use crate::card::{Card, Suit, Value, card_of, standard_suit_seq, standard_value_seq};
use crate::deck::Deck;

verus! {

broadcast use crate::card::group_card_lemmas;

/// Every suit paired with every value: suits outer, values inner.
pub open spec fn product_cards(suits: Seq<Suit>, values: Seq<Value>) -> Seq<Card>
    decreases suits.len(),
{
    if suits.len() == 0 {
        Seq::empty()
    } else {
        product_cards(suits.drop_last(), values) + values.map_values(
            |v: Value| card_of(suits.last(), v),
        )
    }
}

/// The standard 52 cards, suit by suit, Ace to King within a suit.
pub open spec fn standard_deck() -> Seq<Card> {
    product_cards(standard_suit_seq(), standard_value_seq())
}

/// `cards` laid down `n` times in a row.
pub open spec fn repeated(cards: Seq<Card>, n: nat) -> Seq<Card>
    decreases n,
{
    if n == 0 {
        Seq::empty()
    } else {
        repeated(cards, (n - 1) as nat) + cards
    }
}

pub proof fn lemma_repeated_once(cards: Seq<Card>)
    ensures
        repeated(cards, 1) == cards,
{
    assert(repeated(cards, 0) + cards =~= cards);
}

pub open spec fn two_jokers() -> Seq<Card> {
    seq![card_of(Suit::JOKER, Value::JOKER), card_of(Suit::JOKER, Value::JOKER)]
}

pub proof fn lemma_product_len(suits: Seq<Suit>, values: Seq<Value>)
    ensures
        product_cards(suits, values).len() == suits.len() * values.len(),
    decreases suits.len(),
{
    if suits.len() > 0 {
        lemma_product_len(suits.drop_last(), values);
        assert((suits.len() - 1) * values.len() + values.len() == suits.len() * values.len())
            by (nonlinear_arith);
    }
}

pub proof fn lemma_standard_deck_len()
    ensures
        standard_deck().len() == 52,
{
    lemma_product_len(standard_suit_seq(), standard_value_seq());
    assert(standard_suit_seq().len() == 4);
    assert(standard_value_seq().len() == 13);
}

/// Pairs every suit with every value, suits outer.
pub fn product(suits: &Vec<Suit>, values: &Vec<Value>) -> (r: Vec<Card>)
    ensures
        r@ == product_cards(suits@, values@),
{
    let mut cards: Vec<Card> = Vec::new();
    let mut s: usize = 0;
    while s < suits.len()
        invariant
            s <= suits@.len(),
            cards@ == product_cards(suits@.subrange(0, s as int), values@),
        decreases suits@.len() - s,
    {
        let suit = suits[s];
        let ghost before = cards@;
        let mut v: usize = 0;
        while v < values.len()
            invariant
                v <= values@.len(),
                suit == suits@[s as int],
                cards@ == before + values@.subrange(0, v as int).map_values(
                    |x: Value| card_of(suit, x),
                ),
            decreases values@.len() - v,
        {
            cards.push(Card::new(suit, values[v]));
            proof {
                assert(values@.subrange(0, v + 1).map_values(|x: Value| card_of(suit, x))
                    == values@.subrange(0, v as int).map_values(|x: Value| card_of(suit, x)).push(
                    card_of(suit, values@[v as int]),
                ));
            }
            v = v + 1;
        }
        proof {
            assert(values@.subrange(0, v as int) == values@);
            assert(suits@.subrange(0, s + 1).drop_last() == suits@.subrange(0, s as int));
        }
        s = s + 1;
    }
    assert(suits@.subrange(0, s as int) == suits@);
    cards
}

/// The standard 52 cards, no jokers.
pub fn standard_cards() -> (r: Vec<Card>)
    ensures
        r@ == standard_deck(),
{
    let suits = Suit::standard_suits();
    let values = Value::standard_values();
    product(&suits, &values)
}

/// Configures a deck: its base cards, whether two jokers join each copy,
/// and how many copies to lay down.
#[derive(Debug, Clone)]
pub struct DeckBuilder {
    base_cards: Vec<Card>,
    repeat_count: usize,
    include_jokers: bool,
}

impl DeckBuilder {
    pub closed spec fn base(self) -> Seq<Card> {
        self.base_cards@
    }

    pub closed spec fn repeat_spec(self) -> nat {
        self.repeat_count as nat
    }

    pub closed spec fn jokers(self) -> bool {
        self.include_jokers
    }

    /// One copy of the configured cards, jokers included.
    pub open spec fn unit(self) -> Seq<Card> {
        if self.jokers() {
            self.base() + two_jokers()
        } else {
            self.base()
        }
    }

    /// The cards `build` lays down: at least one copy.
    pub open spec fn built(self) -> Seq<Card> {
        repeated(self.unit(), if self.repeat_spec() == 0 { 1 } else { self.repeat_spec() })
    }

    /// No base cards, no jokers, no repetition.
    pub fn new() -> (r: Self)
        ensures
            r.base() == Seq::<Card>::empty(),
            r.repeat_spec() == 0,
            !r.jokers(),
    {
        DeckBuilder { base_cards: Vec::new(), repeat_count: 0, include_jokers: false }
    }

    /// Uses the standard 52 cards as the base.
    pub fn standard52(self) -> (r: Self)
        ensures
            r.base() == standard_deck(),
            r.repeat_spec() == self.repeat_spec(),
            r.jokers() == self.jokers(),
    {
        let mut b = self;
        b.base_cards = standard_cards();
        b
    }

    /// Adds two jokers to each copy of the base.
    pub fn with_jokers(self) -> (r: Self)
        ensures
            r.base() == self.base(),
            r.repeat_spec() == self.repeat_spec(),
            r.jokers(),
    {
        let mut b = self;
        b.include_jokers = true;
        b
    }

    /// Lays the base down `count` times (0 counts as once).
    pub fn repeat(self, count: usize) -> (r: Self)
        ensures
            r.base() == self.base(),
            r.repeat_spec() == count,
            r.jokers() == self.jokers(),
    {
        let mut b = self;
        b.repeat_count = count;
        b
    }

    pub fn build(self) -> (r: Deck)
        ensures
            r@ == self.built(),
    {
        let copies: usize = if self.repeat_count == 0 { 1 } else { self.repeat_count };
        let mut cards: Vec<Card> = Vec::new();
        let mut k: usize = 0;
        while k < copies
            invariant
                k <= copies,
                copies == if self.repeat_spec() == 0 { 1 } else { self.repeat_spec() },
                cards@ == repeated(self.unit(), k as nat),
            decreases copies - k,
        {
            let ghost before = cards@;
            let mut i: usize = 0;
            while i < self.base_cards.len()
                invariant
                    i <= self.base_cards@.len(),
                    cards@ == before + self.base_cards@.subrange(0, i as int),
                decreases self.base_cards@.len() - i,
            {
                cards.push(self.base_cards[i]);
                assert(self.base_cards@.subrange(0, i + 1) == self.base_cards@.subrange(
                    0,
                    i as int,
                ).push(self.base_cards@[i as int]));
                i = i + 1;
            }
            assert(self.base_cards@.subrange(0, i as int) == self.base_cards@);
            if self.include_jokers {
                cards.push(Card::joker());
                cards.push(Card::joker());
            }
            assert(cards@ == repeated(self.unit(), (k + 1) as nat));
            k = k + 1;
        }
        Deck::from_cards(cards)
    }
}

} // verus!
