//! A deck of cards drawn from the top.
use vstd::prelude::*;
use rand::seq::SliceRandom;
use crate::card::Card;
use crate::deck_type::DeckType;
use crate::hand::{cards_text, cards_to_string};
use crate::player::Player;
use vstd::arithmetic::div_mod::lemma_fundamental_div_mod_converse;

verus! {

/// Relies on rand's `SliceRandom::shuffle` with `thread_rng`: it permutes
/// the vector in place by swapping elements, so the same cards remain.
#[verifier::external_body]
fn shuffle_cards(cards: &mut Vec<Card>)
    ensures
        final(cards)@.len() == old(cards)@.len(),
        final(cards)@.to_multiset() == old(cards)@.to_multiset(),
{
    cards.shuffle(&mut rand::thread_rng());
}

/// What player `p` of `n` holds after the first `count` cards of `deck`
/// are dealt round-robin: the cards at positions `p`, `p + n`, `p + 2n`, ...
/// below `count`, in order.
pub open spec fn dealt_to(deck: Seq<Card>, count: nat, n: nat, p: nat) -> Seq<Card>
    decreases count,
{
    if count == 0 {
        Seq::empty()
    } else {
        let k = (count - 1) as nat;
        dealt_to(deck, k, n, p) + if k % n == p {
            seq![deck[k as int]]
        } else {
            Seq::<Card>::empty()
        }
    }
}

pub open spec fn min_nat(a: nat, b: nat) -> nat {
    if a <= b {
        a
    } else {
        b
    }
}

/// An ordered pile of cards; index 0 is the top, drawn first.
#[derive(Debug, Clone, PartialEq)]
pub struct Deck {
    cards: Vec<Card>,
}

impl View for Deck {
    type V = Seq<Card>;

    closed spec fn view(&self) -> Seq<Card> {
        self.cards@
    }
}

impl Deck {
    /// Builds the deck that `deck_type` describes.
    pub fn new(deck_type: DeckType) -> (r: Deck)
        ensures
            r@ == deck_type.cards_spec(),
    {
        deck_type.build()
    }

    /// A deck holding `cards`, the first of them on top.
    pub fn from_cards(cards: Vec<Card>) -> (r: Deck)
        ensures
            r@ == cards@,
    {
        Deck { cards }
    }

    pub fn remaining_cards(&self) -> (r: usize)
        ensures
            r == self@.len(),
    {
        self.cards.len()
    }

    pub fn len(&self) -> (r: usize)
        ensures
            r == self@.len(),
    {
        self.cards.len()
    }

    pub fn is_empty(&self) -> (r: bool)
        ensures
            r == (self@.len() == 0),
    {
        self.cards.len() == 0
    }

    /// Puts the cards in a random order; the same cards remain.
    pub fn shuffle(&mut self)
        ensures
            final(self)@.len() == old(self)@.len(),
            final(self)@.to_multiset() == old(self)@.to_multiset(),
    {
        shuffle_cards(&mut self.cards);
    }

    /// Removes and returns the top card, or `None` when the deck is empty.
    pub fn draw(&mut self) -> (r: Option<Card>)
        ensures
            old(self)@.len() == 0 ==> r.is_none() && final(self)@ == old(self)@,
            old(self)@.len() > 0 ==> r == Some(old(self)@[0]) && final(self)@ == old(self)@.drop_first(),
    {
        if self.cards.len() == 0 {
            None
        } else {
            Some(self.cards.remove(0))
        }
    }

    /// Deals `num_to_deal` rounds of one card to each player in order,
    /// while cards remain; with no players nothing is dealt.
    pub fn deal(&mut self, num_to_deal: u8, players: &mut Vec<Player>)
        ensures
            final(players)@.len() == old(players)@.len(),
            final(self)@ == old(self)@.skip(
                min_nat(old(self)@.len(), num_to_deal as nat * old(players)@.len()) as int,
            ),
            forall|q: int|
                0 <= q < old(players)@.len() ==> (#[trigger] final(players)@[q]).hand@ == old(
                    players,
                )@[q].hand@ + dealt_to(
                    old(self)@,
                    min_nat(old(self)@.len(), num_to_deal as nat * old(players)@.len()),
                    old(players)@.len(),
                    q as nat,
                ) && final(players)@[q].name == old(players)@[q].name && final(players)@[q].dealer
                    == old(players)@[q].dealer,
    {
        let n = players.len();
        if n == 0 {
            assert(self@.skip(0) =~= self@);
            return;
        }
        let ghost deck0 = self@;
        let ghost players0 = players@;
        let ghost mut t: nat = 0;
        let mut round: u8 = 0;
        while round < num_to_deal
            invariant
                n == players@.len(),
                n == players0.len(),
                n > 0,
                round <= num_to_deal,
                t == round as nat * n,
                self@ == deck0.skip(min_nat(deck0.len(), t) as int),
                forall|q: int|
                    0 <= q < n ==> (#[trigger] players@[q]).hand@ == players0[q].hand@ + dealt_to(
                        deck0,
                        min_nat(deck0.len(), t),
                        n as nat,
                        q as nat,
                    ) && players@[q].name == players0[q].name && players@[q].dealer
                        == players0[q].dealer,
            decreases num_to_deal - round,
        {
            let mut p: usize = 0;
            while p < n
                invariant
                    n == players@.len(),
                    n == players0.len(),
                    n > 0,
                    p <= n,
                    round < num_to_deal,
                    t == round as nat * n + p,
                    self@ == deck0.skip(min_nat(deck0.len(), t) as int),
                    forall|q: int|
                        0 <= q < n ==> (#[trigger] players@[q]).hand@ == players0[q].hand@
                            + dealt_to(deck0, min_nat(deck0.len(), t), n as nat, q as nat)
                            && players@[q].name == players0[q].name && players@[q].dealer
                            == players0[q].dealer,
                decreases n - p,
            {
                proof {
                    lemma_fundamental_div_mod_converse(t as int, n as int, round as int, p as int);
                    if t < deck0.len() {
                        assert(deck0.skip(t as int).drop_first() =~= deck0.skip(t + 1 as int));
                        assert(deck0.skip(t as int)[0] == deck0[t as int]);
                    }
                }
                let ghost before = players@;
                if let Some(card) = self.draw() {
                    players[p].hand.add(card);
                }
                proof {
                    assert forall|q: int| 0 <= q < n implies (#[trigger] players@[q]).hand@
                        == players0[q].hand@ + dealt_to(
                        deck0,
                        min_nat(deck0.len(), t + 1),
                        n as nat,
                        q as nat,
                    ) && players@[q].name == players0[q].name && players@[q].dealer
                        == players0[q].dealer by {
                        assert(before[q].hand@ == players0[q].hand@ + dealt_to(
                            deck0,
                            min_nat(deck0.len(), t),
                            n as nat,
                            q as nat,
                        ));
                        if q != p {
                            assert(players@[q] == before[q]);
                        }
                    }
                    t = t + 1;
                }
                p = p + 1;
            }
            proof {
                assert((round as nat + 1) * n == round as nat * n + n) by (nonlinear_arith);
            }
            round = round + 1;
        }
    }

    pub fn cards(&self) -> (r: &[Card])
        ensures
            r@ == self@,
    {
        self.cards.as_slice()
    }

    /// The cards, top first.
    pub fn into_cards(self) -> (r: Vec<Card>)
        ensures
            r@ == self@,
    {
        self.cards
    }

    /// Each card between bars, top first.
    pub fn to_string(&self) -> (r: String)
        ensures
            r@ == cards_text(self@),
    {
        cards_to_string(self.cards.as_slice())
    }
}

} // verus!
