//! An ordered collection of cards held by one participant.
use vstd::prelude::*;
use crate::card::{Card, card_text};

verus! {

/// The cards of a hand, in the order they were added.
#[derive(Debug, Clone)]
pub struct Hand {
    cards: Vec<Card>,
}

impl View for Hand {
    type V = Seq<Card>;

    closed spec fn view(&self) -> Seq<Card> {
        self.cards@
    }
}

/// The text of a sequence of cards: each card between bars, "|c1||c2|".
pub open spec fn cards_text(cards: Seq<Card>) -> Seq<char>
    decreases cards.len(),
{
    if cards.len() == 0 {
        Seq::empty()
    } else {
        cards_text(cards.drop_last()) + "|"@ + card_text(cards.last()) + "|"@
    }
}

/// Writes each card between bars, in order.
pub fn cards_to_string(cards: &[Card]) -> (r: String)
    ensures
        r@ == cards_text(cards@),
{
    let mut out = String::new();
    let mut i: usize = 0;
    while i < cards.len()
        invariant
            i <= cards@.len(),
            out@ == cards_text(cards@.subrange(0, i as int)),
        decreases cards@.len() - i,
    {
        assert(cards@.subrange(0, i + 1).drop_last() == cards@.subrange(0, i as int));
        out.append("|");
        let text = cards[i].to_string();
        out.append(text.as_str());
        out.append("|");
        i = i + 1;
    }
    assert(cards@.subrange(0, i as int) == cards@);
    out
}

/// A copy of the cards.
pub fn copy_cards(cards: &[Card]) -> (r: Vec<Card>)
    ensures
        r@ == cards@,
{
    let mut out: Vec<Card> = Vec::new();
    let mut i: usize = 0;
    while i < cards.len()
        invariant
            i <= cards@.len(),
            out@ == cards@.subrange(0, i as int),
        decreases cards@.len() - i,
    {
        out.push(cards[i]);
        assert(cards@.subrange(0, i + 1) =~= cards@.subrange(0, i as int).push(cards@[i as int]));
        i = i + 1;
    }
    assert(cards@.subrange(0, i as int) =~= cards@);
    out
}

impl Hand {
    pub fn new() -> (r: Self)
        ensures
            r@ == Seq::<Card>::empty(),
    {
        Hand { cards: Vec::new() }
    }

    /// Puts a card at the end of the hand.
    pub fn add(&mut self, card: Card)
        ensures
            final(self)@ == old(self)@.push(card),
    {
        self.cards.push(card);
    }

    pub fn clear_hand(&mut self)
        ensures
            final(self)@ == Seq::<Card>::empty(),
    {
        self.cards.clear();
    }

    pub fn len(&self) -> (r: usize)
        ensures
            r == self@.len(),
    {
        self.cards.len()
    }

    pub fn is_empty(&self) -> (r: bool)
        ensures
            r == (self@.len() == 0),
    {
        self.cards.len() == 0
    }

    pub fn cards(&self) -> (r: &[Card])
        ensures
            r@ == self@,
    {
        self.cards.as_slice()
    }

    /// Each card between bars, e.g. "|Ten of ♥||Ace of ♣|".
    pub fn to_string(&self) -> (r: String)
        ensures
            r@ == cards_text(self@),
    {
        cards_to_string(self.cards.as_slice())
    }
}

} // verus!
