//! The round as a mathematical model: its data, the transitions of the
//! state machine, settlement, and the conditions under which a round is
//! well formed.
use vstd::prelude::*;
use crate::card::{Card, Value};
use crate::rules::{
    SplitContext, ace_count, bust, hard_total, lemma_at_most_one_soft_ace, natural, point_value,
    raw_total, score, splittable,
};
use crate::types::{
    BlackjackEvent, BlackjackState, DEFAULT_BET, GameResult, HandModel, MAX_BALANCE, PlayerAction,
    hand_outcome,
};

verus! {

/// Everything a round's rules read: its state, the undealt cards, the
/// player's hands, the dealer's cards, the bank balance and the result.
pub ghost struct RoundModel {
    pub state: BlackjackState,
    pub shoe: Seq<Card>,
    pub hands: Seq<HandModel>,
    pub dealer: Seq<Card>,
    pub balance: nat,
    pub result: GameResult,
}

/// A round together with the events reported so far.
pub ghost struct Step {
    pub round: RoundModel,
    pub events: Seq<BlackjackEvent>,
}

/// Moves to `next`, reporting the change when the state differs.
pub open spec fn goto(s: Step, next: BlackjackState) -> Step {
    Step {
        round: RoundModel { state: next, ..s.round },
        events: if s.round.state != next {
            s.events.push(BlackjackEvent::StateChanged { from: s.round.state, to: next })
        } else {
            s.events
        },
    }
}

/// Records the round's result, reporting it unless it is `Pending`.
pub open spec fn resolve_with(s: Step, result: GameResult) -> Step {
    Step {
        round: RoundModel { result, ..s.round },
        events: if result != GameResult::Pending {
            s.events.push(BlackjackEvent::RoundResolved { result })
        } else {
            s.events
        },
    }
}

/// Deposits `amount` into the bank.
pub open spec fn paid(s: Step, amount: nat) -> Step {
    Step { round: RoundModel { balance: s.round.balance + amount, ..s.round }, events: s.events }
}

/// The index of the hand awaiting a decision (0 outside the player's turn).
pub open spec fn active_index(state: BlackjackState) -> int {
    match state {
        BlackjackState::PlayerTurn { hand_index } => hand_index as int,
        _ => 0,
    }
}

pub open spec fn split_context_of(hands: Seq<HandModel>) -> SplitContext {
    if hands.len() > 1 {
        SplitContext::AlreadySplit
    } else {
        SplitContext::NoPreviousSplit
    }
}

/// The turn of the lowest-indexed open hand at or after `from`, else the
/// dealer's turn.
pub open spec fn next_turn(hands: Seq<HandModel>, from: nat) -> BlackjackState
    decreases hands.len() - from,
{
    if from >= hands.len() {
        BlackjackState::DealerTurn
    } else if !hands[from as int].complete {
        BlackjackState::PlayerTurn { hand_index: from as usize }
    } else {
        next_turn(hands, from + 1)
    }
}

/// Moves on from hand `idx`: to the next open hand after it, else to the
/// dealer.
pub open spec fn advance(s: Step, idx: int) -> Step {
    goto(s, next_turn(s.round.hands, (idx + 1) as nat))
}

/// The dealer's cards and the shoe after the dealer draws while below 17.
pub open spec fn dealer_draws(dealer: Seq<Card>, shoe: Seq<Card>) -> (Seq<Card>, Seq<Card>)
    decreases shoe.len(),
{
    if score(dealer) < 17 && shoe.len() > 0 {
        dealer_draws(dealer.push(shoe[0]), shoe.drop_first())
    } else {
        (dealer, shoe)
    }
}

/// The shoe holds every card the dealer will draw.
pub open spec fn dealer_can_finish(dealer: Seq<Card>, shoe: Seq<Card>) -> bool
    decreases shoe.len(),
{
    if score(dealer) < 17 {
        if shoe.len() > 0 {
            dealer_can_finish(dealer.push(shoe[0]), shoe.drop_first())
        } else {
            false
        }
    } else {
        true
    }
}

/// What a settled hand returns to the bank: twice the bet on a win, the
/// bet on a push, nothing on a loss.
pub open spec fn hand_payout(h: HandModel, dealer: Seq<Card>) -> nat {
    match hand_outcome(h.cards, dealer) {
        GameResult::PlayerWin => (2 * h.bet) as nat,
        GameResult::Push => h.bet as nat,
        _ => 0,
    }
}

pub open spec fn total_payout(hands: Seq<HandModel>, dealer: Seq<Card>) -> nat
    decreases hands.len(),
{
    if hands.len() == 0 {
        0
    } else {
        total_payout(hands.drop_last(), dealer) + hand_payout(hands.last(), dealer)
    }
}

pub open spec fn all_outcomes(hands: Seq<HandModel>, dealer: Seq<Card>, r: GameResult) -> bool {
    forall|i: int| 0 <= i < hands.len() ==> #[trigger] hand_outcome(hands[i].cards, dealer) == r
}

/// Some hand among the first `n` has outcome `r`.
pub open spec fn some_outcome(hands: Seq<HandModel>, dealer: Seq<Card>, r: GameResult, n: int) -> bool {
    exists|j: int| 0 <= j < n && #[trigger] hand_outcome(hands[j].cards, dealer) == r
}

/// The round's headline result: the common outcome when all hands agree
/// on a win or on a loss, else `Push`; `Pending` with no hands.
pub open spec fn round_result(hands: Seq<HandModel>, dealer: Seq<Card>) -> GameResult {
    if hands.len() == 0 {
        GameResult::Pending
    } else if all_outcomes(hands, dealer, GameResult::PlayerWin) {
        GameResult::PlayerWin
    } else if all_outcomes(hands, dealer, GameResult::DealerWin) {
        GameResult::DealerWin
    } else {
        GameResult::Push
    }
}

/// Pays every hand against the dealer, records the result and ends the
/// round.
pub open spec fn resolve(s: Step) -> Step {
    let hands = s.round.hands;
    let dealer = s.round.dealer;
    goto(
        resolve_with(paid(s, total_payout(hands, dealer)), round_result(hands, dealer)),
        BlackjackState::RoundOver,
    )
}

/// The dealer's turn: draw while below 17, then settle.
pub open spec fn settle(s: Step) -> Step {
    let drawn = dealer_draws(s.round.dealer, s.round.shoe);
    resolve(
        Step {
            round: RoundModel { dealer: drawn.0, shoe: drawn.1, ..s.round },
            events: s.events,
        },
    )
}

/// A natural pays the bet back plus 3:2 (rounded down).
pub open spec fn natural_payout(bet: u32) -> nat {
    (bet + bet * 3 / 2) as nat
}

/// Resolves naturals right after the deal, or hands the turn to the player.
pub open spec fn check_naturals(s: Step) -> Step {
    let player = natural(s.round.hands[0].cards);
    let dealer = natural(s.round.dealer);
    let bet = s.round.hands[0].bet;
    if player && dealer {
        goto(resolve_with(paid(s, bet as nat), GameResult::Push), BlackjackState::RoundOver)
    } else if player {
        goto(
            resolve_with(paid(s, natural_payout(bet)), GameResult::PlayerWin),
            BlackjackState::RoundOver,
        )
    } else if dealer {
        goto(resolve_with(s, GameResult::DealerWin), BlackjackState::RoundOver)
    } else {
        goto(s, BlackjackState::PlayerTurn { hand_index: 0 })
    }
}

/// Deals alternately, player first: the player's hand gets the first and
/// third cards, the dealer the second and fourth; then naturals.
pub open spec fn deal(s: Step) -> Step {
    let r = s.round;
    let h0 = r.hands[0];
    let hands = r.hands.update(0, HandModel { cards: h0.cards + seq![r.shoe[0], r.shoe[2]], ..h0 });
    check_naturals(
        Step {
            round: RoundModel {
                hands,
                dealer: r.dealer + seq![r.shoe[1], r.shoe[3]],
                shoe: r.shoe.skip(4),
                ..r
            },
            events: s.events,
        },
    )
}

/// Runs the engine-driven states until the round waits for the player or
/// is over.
pub open spec fn run_engine(s: Step) -> Step {
    match s.round.state {
        BlackjackState::Dealing => deal(s),
        BlackjackState::DealerTurn => settle(s),
        _ => s,
    }
}

/// A new table: one open hand with the default bet, no dealer cards, no
/// result.
pub open spec fn fresh_table(m: RoundModel) -> RoundModel {
    RoundModel {
        hands: seq![HandModel { cards: Seq::empty(), bet: DEFAULT_BET, complete: false }],
        dealer: Seq::empty(),
        result: GameResult::Pending,
        ..m
    }
}

/// Starts a round: a fresh table, the bet withdrawn, then the deal; when
/// the bank cannot cover the bet the round stays in `Dealing`, undealt.
pub open spec fn start(m: RoundModel) -> Step {
    let s = goto(Step { round: fresh_table(m), events: Seq::empty() }, BlackjackState::Dealing);
    if s.round.balance >= DEFAULT_BET {
        run_engine(
            Step {
                round: RoundModel { balance: (s.round.balance - DEFAULT_BET) as nat, ..s.round },
                events: s.events,
            },
        )
    } else {
        s
    }
}

/// Whether the player's action is carried out; otherwise it is ignored.
pub open spec fn action_allowed(m: RoundModel, a: PlayerAction) -> bool {
    match m.state {
        BlackjackState::PlayerTurn { hand_index } => {
            let h = m.hands[hand_index as int];
            match a {
                PlayerAction::Hit => true,
                PlayerAction::Stay => true,
                PlayerAction::Double => h.cards.len() == 2 && !h.complete && m.balance >= h.bet,
                PlayerAction::Split => splittable(h.cards, split_context_of(m.hands)) && m.balance
                    >= h.bet,
            }
        },
        _ => false,
    }
}

/// The effect of an allowed action on hand `i`, before the engine runs.
pub open spec fn player_move(s: Step, i: int, a: PlayerAction) -> Step {
    let r = s.round;
    let h = r.hands[i];
    match a {
        PlayerAction::Hit => {
            let cards = h.cards.push(r.shoe[0]);
            let hit = Step {
                round: RoundModel {
                    shoe: r.shoe.drop_first(),
                    hands: r.hands.update(
                        i,
                        HandModel { cards, complete: bust(cards) || h.complete, ..h },
                    ),
                    ..r
                },
                events: s.events,
            };
            if bust(cards) {
                advance(hit, i)
            } else {
                hit
            }
        },
        PlayerAction::Stay => advance(
            Step {
                round: RoundModel {
                    hands: r.hands.update(i, HandModel { complete: true, ..h }),
                    ..r
                },
                events: s.events,
            },
            i,
        ),
        PlayerAction::Double => advance(
            Step {
                round: RoundModel {
                    balance: (r.balance - h.bet) as nat,
                    shoe: r.shoe.drop_first(),
                    hands: r.hands.update(
                        i,
                        HandModel { cards: h.cards.push(r.shoe[0]), bet: (2 * h.bet) as u32, complete: true },
                    ),
                    ..r
                },
                events: s.events,
            },
            i,
        ),
        PlayerAction::Split => {
            let first = HandModel { cards: seq![h.cards[0], r.shoe[0]], ..h };
            let second = HandModel { cards: seq![h.cards[1], r.shoe[1]], bet: h.bet, complete: false };
            goto(
                Step {
                    round: RoundModel {
                        balance: (r.balance - h.bet) as nat,
                        shoe: r.shoe.skip(2),
                        hands: r.hands.update(i, first).push(second),
                        ..r
                    },
                    events: s.events,
                },
                BlackjackState::PlayerTurn { hand_index: 0 },
            )
        },
    }
}

pub open spec fn cards_needed(a: PlayerAction) -> nat {
    match a {
        PlayerAction::Hit => 1,
        PlayerAction::Double => 1,
        PlayerAction::Split => 2,
        PlayerAction::Stay => 0,
    }
}

/// One player action: carried out and followed by the engine's states, or
/// ignored with an `ActionIgnored` event and no change.
pub open spec fn apply_step(m: RoundModel, a: PlayerAction) -> Step {
    if action_allowed(m, a) {
        let s = player_move(Step { round: m, events: Seq::empty() }, active_index(m.state), a);
        run_engine(Step { round: s.round, events: seq![BlackjackEvent::ActionApplied { action: a }] + s.events })
    } else {
        Step { round: m, events: seq![BlackjackEvent::ActionIgnored { action: a, state: m.state }] }
    }
}

/// The shoe holds every card that the action and the dealer's turn it may
/// lead to will draw.
pub open spec fn apply_ready(m: RoundModel, a: PlayerAction) -> bool {
    action_allowed(m, a) ==> {
        let s = player_move(Step { round: m, events: Seq::empty() }, active_index(m.state), a);
        &&& m.shoe.len() >= cards_needed(a)
        &&& s.round.state == BlackjackState::DealerTurn ==> dealer_can_finish(
            s.round.dealer,
            s.round.shoe,
        )
    }
}

/// The bounds every hand of a round keeps.
pub open spec fn hand_ok(h: HandModel) -> bool {
    &&& h.bet <= 2 * DEFAULT_BET
    &&& hard_total(h.cards) <= 31
    &&& !h.complete ==> score(h.cards) <= 21 && h.bet <= DEFAULT_BET
}

/// A well-formed round: one or two hands within their bounds, the dealer's
/// hard total within 26, a balance that leaves room for every payout, and
/// a state that points at an open hand or at an undealt table.
pub open spec fn wf(m: RoundModel) -> bool {
    &&& 1 <= m.hands.len() <= 2
    &&& forall|i: int| 0 <= i < m.hands.len() ==> hand_ok(#[trigger] m.hands[i])
    &&& hard_total(m.dealer) <= 26
    &&& m.balance <= u32::MAX
    &&& m.state != BlackjackState::RoundOver ==> m.balance <= MAX_BALANCE
    &&& match m.state {
        BlackjackState::PlayerTurn { hand_index } => hand_index < m.hands.len()
            && !m.hands[hand_index as int].complete,
        BlackjackState::Dealing => {
            &&& m.hands.len() == 1
            &&& m.hands[0].cards.len() == 0
            &&& !m.hands[0].complete
            &&& m.dealer.len() == 0
        },
        _ => true,
    }
}

pub proof fn lemma_push_totals(s: Seq<Card>, c: Card)
    ensures
        raw_total(s.push(c)) == raw_total(s) + point_value(c.value_of()),
        ace_count(s.push(c)) == ace_count(s) + if c.value_of() == Value::ACE {
            1nat
        } else {
            0nat
        },
        hard_total(s) <= hard_total(s.push(c)) <= hard_total(s) + 10,
{
    assert(s.push(c).drop_last() == s);
}

pub proof fn lemma_hard_nonneg(s: Seq<Card>)
    ensures
        0 <= hard_total(s) <= score(s),
        score(s) <= hard_total(s) + 10,
        score(s) <= 21 || score(s) == hard_total(s),
        hard_total(s) <= 10 * s.len(),
    decreases s.len(),
{
    lemma_at_most_one_soft_ace(s);
    if s.len() > 0 {
        lemma_hard_nonneg(s.drop_last());
        assert(s.drop_last().push(s.last()) == s);
        lemma_push_totals(s.drop_last(), s.last());
    }
}

/// The cards after the first have a hard total no larger than the whole.
pub proof fn lemma_tail_hard_total(s: Seq<Card>)
    requires
        s.len() >= 1,
    ensures
        hard_total(s.subrange(1, s.len() as int)) <= hard_total(s),
    decreases s.len(),
{
    if s.len() == 1 {
        assert(s.subrange(1, 1) == Seq::<Card>::empty());
        lemma_hard_nonneg(s);
    } else {
        let init = s.drop_last();
        lemma_tail_hard_total(init);
        assert(init.subrange(1, init.len() as int).push(s.last()) == s.subrange(1, s.len() as int));
        lemma_push_totals(init.subrange(1, init.len() as int), s.last());
        assert(init.push(s.last()) == s);
        lemma_push_totals(init, s.last());
    }
}

pub proof fn lemma_payout_bound(hands: Seq<HandModel>, dealer: Seq<Card>)
    requires
        forall|i: int| 0 <= i < hands.len() ==> hand_ok(#[trigger] hands[i]),
    ensures
        total_payout(hands, dealer) <= 40 * hands.len(),
    decreases hands.len(),
{
    if hands.len() > 0 {
        let init = hands.drop_last();
        assert forall|i: int| 0 <= i < init.len() implies hand_ok(#[trigger] init[i]) by {
            assert(init[i] == hands[i]);
        }
        lemma_payout_bound(init, dealer);
        assert(hand_ok(hands[hands.len() - 1]));
        assert(hand_payout(hands.last(), dealer) <= 40);
    }
}

/// A two-card hand never exceeds 21 and its hard total is at most 20.
pub proof fn lemma_two_cards(s: Seq<Card>)
    requires
        s.len() == 2,
    ensures
        hard_total(s) <= 20,
        score(s) <= 21,
{
    lemma_hard_nonneg(s);
    lemma_at_most_one_soft_ace(s);
}

/// `next_turn` names an open hand, or the dealer.
pub proof fn lemma_next_turn(hands: Seq<HandModel>, from: nat)
    requires
        hands.len() <= usize::MAX,
    ensures
        match next_turn(hands, from) {
            BlackjackState::PlayerTurn { hand_index } => from <= hand_index < hands.len()
                && !hands[hand_index as int].complete,
            BlackjackState::DealerTurn => true,
            _ => false,
        },
    decreases hands.len() - from,
{
    if from < hands.len() && hands[from as int].complete {
        lemma_next_turn(hands, from + 1);
    }
}

/// The same round with hand `j` awaiting a decision.
pub open spec fn with_turn(m: RoundModel, j: usize) -> RoundModel {
    RoundModel { state: BlackjackState::PlayerTurn { hand_index: j }, ..m }
}

/// After a successful split the table holds two hands of two cards each,
/// each carrying the bet of the hand that was split; the bank has paid exactly one more bet,
/// so two bets are out in all; and a further split is refused on either
/// hand.
pub proof fn lemma_split_invariant(m: RoundModel)
    requires
        wf(m),
        action_allowed(m, PlayerAction::Split),
        m.shoe.len() >= 2,
    ensures
        ({
            let after = apply_step(m, PlayerAction::Split).round;
            let bet = m.hands[active_index(m.state)].bet;
            &&& after.hands.len() == 2
            &&& after.hands[0].cards.len() == 2
            &&& after.hands[1].cards.len() == 2
            &&& after.hands[0].bet == bet
            &&& after.hands[1].bet == bet
            &&& after.balance + bet == m.balance
            &&& after.state == BlackjackState::PlayerTurn { hand_index: 0 }
            &&& forall|j: usize|
                j < 2 ==> !action_allowed(#[trigger] with_turn(after, j), PlayerAction::Split)
        }),
{
    let i = active_index(m.state);
    assert(m.hands.len() == 1);
    assert(i == 0);
}

/// Changing a hand before `from` does not change which turn comes next
/// from `from` on.
pub proof fn lemma_next_turn_ignores_earlier(hands: Seq<HandModel>, i: int, h: HandModel, from: nat)
    requires
        0 <= i < from,
        i < hands.len(),
    ensures
        next_turn(hands.update(i, h), from) == next_turn(hands, from),
    decreases hands.len() - from,
{
    if from < hands.len() {
        assert(hands.update(i, h)[from as int] == hands[from as int]);
        lemma_next_turn_ignores_earlier(hands, i, h, from + 1);
    }
}

/// Naturals settle a round as soon as it is dealt, without waiting for the
/// player: a player natural alone wins and pays the bet back plus 3:2,
/// naturals on both sides push and refund the bet, a dealer natural alone
/// keeps the bet; with no natural the player plays the first hand.
pub proof fn lemma_naturals_settle_at_deal(m: RoundModel)
    requires
        m.balance >= DEFAULT_BET,
        m.shoe.len() >= 4,
    ensures
        natural_payout(DEFAULT_BET) == 25,
        ({
            let player = seq![m.shoe[0], m.shoe[2]];
            let dealer = seq![m.shoe[1], m.shoe[3]];
            let after = start(m).round;
            &&& after.hands[0].cards == player
            &&& after.dealer == dealer
            &&& natural(player) && !natural(dealer) ==> after.state == BlackjackState::RoundOver
                && after.result == GameResult::PlayerWin && after.balance == m.balance - DEFAULT_BET
                + natural_payout(DEFAULT_BET)
            &&& natural(player) && natural(dealer) ==> after.state == BlackjackState::RoundOver
                && after.result == GameResult::Push && after.balance == m.balance
            &&& !natural(player) && natural(dealer) ==> after.state == BlackjackState::RoundOver
                && after.result == GameResult::DealerWin && after.balance == m.balance - DEFAULT_BET
            &&& !natural(player) && !natural(dealer) ==> after.state
                == (BlackjackState::PlayerTurn { hand_index: 0 }) && after.result
                == GameResult::Pending && after.balance == m.balance - DEFAULT_BET
        }),
{
    assert(Seq::<Card>::empty() + seq![m.shoe[0], m.shoe[2]] =~= seq![m.shoe[0], m.shoe[2]]);
    assert(Seq::<Card>::empty() + seq![m.shoe[1], m.shoe[3]] =~= seq![m.shoe[1], m.shoe[3]]);
}

} // verus!
