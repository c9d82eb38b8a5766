//! Blackjack scoring: card points, soft-ace adjusted totals, busts,
//! naturals, the dealer's drawing rule and split/double eligibility.
use vstd::prelude::*;
use crate::card::{Card, Value, rank_of};
use crate::types::{HandModel, PlayerHand};

verus! {

/// The blackjack point value of a card value: Ace 11, Two to Ten their
/// number, face cards 10, a joker 0.
pub open spec fn point_value(v: Value) -> nat {
    match v {
        Value::ACE => 11,
        Value::TWO => 2,
        Value::THREE => 3,
        Value::FOUR => 4,
        Value::FIVE => 5,
        Value::SIX => 6,
        Value::SEVEN => 7,
        Value::EIGHT => 8,
        Value::NINE => 9,
        Value::TEN | Value::JACK | Value::QUEEN | Value::KING => 10,
        Value::JOKER => 0,
    }
}

/// Sum of the point values, every Ace counted as 11.
pub open spec fn raw_total(cards: Seq<Card>) -> nat
    decreases cards.len(),
{
    if cards.len() == 0 {
        0
    } else {
        raw_total(cards.drop_last()) + point_value(cards.last().value_of())
    }
}

/// Number of Aces in the cards.
pub open spec fn ace_count(cards: Seq<Card>) -> nat
    decreases cards.len(),
{
    if cards.len() == 0 {
        0
    } else {
        ace_count(cards.drop_last()) + if cards.last().value_of() == Value::ACE {
            1nat
        } else {
            0nat
        }
    }
}

/// The hard total: every Ace counted as 1.
pub open spec fn hard_total(cards: Seq<Card>) -> int {
    raw_total(cards) - 10 * ace_count(cards)
}

/// The total when `k` of the Aces counted in `raw` are re-counted as 1.
pub open spec fn recounted(raw: int, k: nat) -> int {
    raw - 10 * k
}

/// Re-counts one Ace as 1 (taking 10 off) while the total exceeds 21 and
/// an Ace counted as 11 remains.
pub open spec fn adjust_aces(total: int, aces: nat) -> int
    decreases aces,
{
    if total > 21 && aces > 0 {
        adjust_aces(total - 10, (aces - 1) as nat)
    } else {
        total
    }
}

/// The score of a hand, with soft Aces adjusted.
pub open spec fn score(cards: Seq<Card>) -> int {
    adjust_aces(raw_total(cards) as int, ace_count(cards))
}

pub open spec fn bust(cards: Seq<Card>) -> bool {
    score(cards) > 21
}

/// A natural: exactly two cards scoring 21.
pub open spec fn natural(cards: Seq<Card>) -> bool {
    cards.len() == 2 && score(cards) == 21
}

/// Whether a hand's score fits the `u8` that scoring returns.
pub open spec fn scorable(cards: Seq<Card>) -> bool {
    hard_total(cards) <= 255
}

/// Whether a hand has already been split this round.
#[derive(Debug, Clone, Copy, PartialEq, Eq, Structural)]
pub enum SplitContext {
    NoPreviousSplit,
    AlreadySplit,
}

/// A split needs two cards of equal rank and no earlier split.
pub open spec fn splittable(cards: Seq<Card>, context: SplitContext) -> bool {
    &&& cards.len() == 2
    &&& rank_of(cards[0].value_of()) == rank_of(cards[1].value_of())
    &&& context == SplitContext::NoPreviousSplit
}

proof fn lemma_totals(cards: Seq<Card>)
    ensures
        raw_total(cards) == hard_total(cards) + 10 * ace_count(cards),
        ace_count(cards) <= hard_total(cards),
        hard_total(cards) <= 10 * cards.len(),
    decreases cards.len(),
{
    if cards.len() > 0 {
        lemma_totals(cards.drop_last());
    }
}

proof fn lemma_prefix_hard_total(cards: Seq<Card>, i: int)
    requires
        0 <= i <= cards.len(),
    ensures
        hard_total(cards.subrange(0, i)) <= hard_total(cards),
    decreases cards.len(),
{
    if i < cards.len() {
        let init = cards.drop_last();
        assert(init.subrange(0, i) == cards.subrange(0, i));
        lemma_prefix_hard_total(init, i);
        lemma_totals(init);
        lemma_totals(cards);
    } else {
        assert(cards.subrange(0, i) == cards);
    }
}

proof fn lemma_adjust_bounds(total: int, aces: nat)
    ensures
        total - 10 * aces <= adjust_aces(total, aces) <= total,
        adjust_aces(total, aces) <= 21 || adjust_aces(total, aces) == total - 10 * aces,
        exists|j: nat| j <= aces && adjust_aces(total, aces) == #[trigger] recounted(total, j),
    decreases aces,
{
    if total > 21 && aces > 0 {
        lemma_adjust_bounds(total - 10, (aces - 1) as nat);
        let j = choose|j: nat| j <= aces - 1 && adjust_aces(total - 10, (aces - 1) as nat)
            == #[trigger] recounted(total - 10, j);
        assert(adjust_aces(total, aces) == recounted(total, j + 1));
    } else {
        assert(adjust_aces(total, aces) == recounted(total, 0));
    }
}

/// The score lies between the hard total and the raw total, and is at most
/// 21 unless every Ace already counts as 1.
proof fn lemma_score_bounds(cards: Seq<Card>)
    ensures
        hard_total(cards) <= score(cards) <= raw_total(cards),
        score(cards) <= 21 || score(cards) == hard_total(cards),
        0 <= hard_total(cards),
{
    lemma_totals(cards);
    lemma_adjust_bounds(raw_total(cards) as int, ace_count(cards));
}

/// A soft Ace is never counted twice: the score is the hard total, or the
/// hard total plus 10 for a single Ace counted as 11, which happens only when
/// the hand holds an Ace and the result stays within 21.
pub proof fn lemma_at_most_one_soft_ace(cards: Seq<Card>)
    ensures
        score(cards) == hard_total(cards) || score(cards) == hard_total(cards) + 10,
        score(cards) == hard_total(cards) + 10 ==> ace_count(cards) >= 1 && score(cards) <= 21,
{
    lemma_totals(cards);
    let raw = raw_total(cards) as int;
    let aces = ace_count(cards);
    lemma_adjust_bounds(raw, aces);
    let j = choose|j: nat| j <= aces && adjust_aces(raw, aces) == #[trigger] recounted(raw, j);
    lemma_adjust_is_best(raw, aces);
    if j + 2 <= aces {
        // two Aces would still count as 11: the total then exceeds 21 and
        // one of them would have been re-counted
        assert(recounted(raw, j) >= hard_total(cards) + 20);
        assert(recounted(raw, j + 1) > 21);
        assert(false);
    }
}

proof fn lemma_adjust_is_best(total: int, aces: nat)
    ensures
        forall|k: nat|
            k <= aces && #[trigger] recounted(total, k) <= 21 ==> recounted(total, k)
                <= adjust_aces(total, aces),
        adjust_aces(total, aces) > 21 ==> forall|k: nat| k <= aces ==> #[trigger] recounted(total, k) > 21,
    decreases aces,
{
    if total > 21 && aces > 0 {
        lemma_adjust_is_best(total - 10, (aces - 1) as nat);
        assert forall|k: nat| k <= aces && #[trigger] recounted(total, k) <= 21 implies recounted(total, k)
            <= adjust_aces(total, aces) by {
            assert(k >= 1);
            let k1 = (k - 1) as nat;
            assert(recounted(total - 10, k1) == recounted(total, k));
        }
        if adjust_aces(total, aces) > 21 {
            assert forall|k: nat| k <= aces implies #[trigger] recounted(total, k) > 21 by {
                if k >= 1 {
                    let k1 = (k - 1) as nat;
                    assert(recounted(total - 10, k1) == recounted(total, k));
                }
            }
        }
    }
}

/// The score is the largest total within 21 that some choice of Aces as 1
/// or 11 reaches; when no choice stays within 21, it is the hard total and
/// the hand is bust.
pub proof fn lemma_score_is_best_total(cards: Seq<Card>)
    ensures
        (exists|k: nat| k <= ace_count(cards) && #[trigger] recounted(raw_total(cards) as int, k) <= 21)
            ==> {
            &&& score(cards) <= 21
            &&& exists|j: nat|
                j <= ace_count(cards) && score(cards) == #[trigger] recounted(raw_total(cards) as int, j)
            &&& forall|k: nat|
                k <= ace_count(cards) && #[trigger] recounted(raw_total(cards) as int, k) <= 21
                    ==> recounted(raw_total(cards) as int, k) <= score(cards)
        },
        !(exists|k: nat| k <= ace_count(cards) && #[trigger] recounted(raw_total(cards) as int, k) <= 21)
            ==> {
            &&& score(cards) == hard_total(cards)
            &&& bust(cards)
        },
{
    let raw = raw_total(cards) as int;
    let aces = ace_count(cards);
    lemma_adjust_bounds(raw, aces);
    lemma_adjust_is_best(raw, aces);
    if exists|k: nat| k <= aces && #[trigger] recounted(raw, k) <= 21 {
        let k = choose|k: nat| k <= aces && #[trigger] recounted(raw, k) <= 21;
        assert(recounted(raw, k) <= score(cards));
    } else {
        assert(recounted(raw, aces) > 21);
    }
}

/// The point value of a card: Ace 11, face cards 10, numerics their number,
/// a joker 0.
pub fn card_value(card: &Card) -> (r: u8)
    ensures
        r as nat == point_value(card.value_of()),
{
    match *card.value() {
        Value::ACE => 11,
        Value::TWO => 2,
        Value::THREE => 3,
        Value::FOUR => 4,
        Value::FIVE => 5,
        Value::SIX => 6,
        Value::SEVEN => 7,
        Value::EIGHT => 8,
        Value::NINE => 9,
        Value::TEN | Value::JACK | Value::QUEEN | Value::KING => 10,
        Value::JOKER => 0,
    }
}

/// The score of a hand: Aces count 11, and one at a time is re-counted as 1
/// while the total exceeds 21.
pub fn hand_score(hand: &[Card]) -> (r: u8)
    requires
        scorable(hand@),
    ensures
        r as int == score(hand@),
        r == hard_total(hand@) || (r == hard_total(hand@) + 10 && ace_count(hand@) >= 1 && r <= 21),
        hard_total(hand@) > 21 ==> r == hard_total(hand@),
{
    proof {
        lemma_at_most_one_soft_ace(hand@);
        lemma_score_bounds(hand@);
    }
    let mut total: u32 = 0;
    let mut aces: u32 = 0;
    let mut i: usize = 0;
    proof {
        lemma_totals(hand@);
    }
    while i < hand.len()
        invariant
            i <= hand@.len(),
            scorable(hand@),
            total as nat == raw_total(hand@.subrange(0, i as int)),
            aces as nat == ace_count(hand@.subrange(0, i as int)),
            total <= 2805,
            aces <= 255,
        decreases hand@.len() - i,
    {
        let card = &hand[i];
        proof {
            let next = hand@.subrange(0, i + 1);
            assert(next.drop_last() == hand@.subrange(0, i as int));
            lemma_prefix_hard_total(hand@, i + 1);
            lemma_totals(next);
        }
        total = total + card_value(card) as u32;
        if card.value().is_ace() {
            aces = aces + 1;
        }
        i = i + 1;
    }
    assert(hand@.subrange(0, i as int) == hand@);
    proof {
        lemma_score_bounds(hand@);
    }
    while total > 21 && aces > 0
        invariant
            adjust_aces(total as int, aces as nat) == score(hand@),
        decreases aces,
    {
        total = total - 10;
        aces = aces - 1;
    }
    total as u8
}

/// The dealer draws below 17; a soft 17 already counts as 17 and stands.
pub fn dealer_should_hit(hand: &[Card]) -> (r: bool)
    requires
        scorable(hand@),
    ensures
        r == (score(hand@) < 17),
{
    hand_score(hand) < 17
}

pub fn is_bust(hand: &[Card]) -> (r: bool)
    requires
        scorable(hand@),
    ensures
        r == bust(hand@),
        r == (hard_total(hand@) > 21),
{
    hand_score(hand) > 21
}

/// A natural blackjack: exactly two cards scoring 21.
pub fn is_blackjack(hand: &[Card]) -> (r: bool)
    ensures
        r == natural(hand@),
{
    if hand.len() == 2 {
        proof {
            lemma_totals(hand@);
        }
        hand_score(hand) == 21
    } else {
        false
    }
}

/// A double needs exactly two cards on a hand that is still open.
pub open spec fn doublable(h: HandModel) -> bool {
    h.cards.len() == 2 && !h.complete
}

pub fn can_double(hand: &PlayerHand) -> (r: bool)
    ensures
        r == doublable(hand@),
{
    hand.hand.len() == 2 && !hand.is_complete
}

/// Two cards of equal rank, in a round that has not split yet.
pub fn can_split(hand: &[Card], context: SplitContext) -> (r: bool)
    ensures
        r == splittable(hand@, context),
{
    hand.len() == 2 && hand[0].rank() == hand[1].rank() && matches!(
        context,
        SplitContext::NoPreviousSplit
    )
}

/// A game's rule for the points a single card is worth.
pub trait GameRules {
    fn card_value(card: &Card) -> u8;
}

/// The Blackjack rules as one type.
pub struct BlackjackRules;

impl GameRules for BlackjackRules {
    fn card_value(card: &Card) -> u8 {
        card_value(card)
    }
}

impl BlackjackRules {
    pub fn hand_score(hand: &[Card]) -> (r: u8)
        requires
            scorable(hand@),
        ensures
            r as int == score(hand@),
    {
        hand_score(hand)
    }

    pub fn is_bust(hand: &[Card]) -> (r: bool)
        requires
            scorable(hand@),
        ensures
            r == bust(hand@),
    {
        is_bust(hand)
    }

    pub fn is_blackjack(hand: &[Card]) -> (r: bool)
        ensures
            r == natural(hand@),
    {
        is_blackjack(hand)
    }
}

} // verus!
