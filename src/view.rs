//! A read-only snapshot of a round for display: the dealer's hole card
//! stays hidden while the player is deciding.
use vstd::prelude::*;
use crate::card::Card;
use crate::round::{RoundModel, action_allowed, active_index, apply_step, split_context_of, wf};
use crate::rules::{score, splittable};
use crate::types::{BlackjackEvent, BlackjackState, GameResult, HandModel, PlayerAction};

verus! {

/// A card as the player sees it.
#[derive(Debug, Clone, Copy, PartialEq, Eq, Structural)]
pub enum VisibleCard {
    FaceUp(Card),
    FaceDown,
}

/// One player hand as shown.
#[derive(Debug, Clone)]
pub struct PlayerHandView {
    pub cards: Vec<VisibleCard>,
    pub score: u8,
    pub bet_amount: u32,
    pub is_complete: bool,
}

pub ghost struct HandViewModel {
    pub cards: Seq<VisibleCard>,
    pub score: u8,
    pub bet_amount: u32,
    pub is_complete: bool,
}

impl View for PlayerHandView {
    type V = HandViewModel;

    open spec fn view(&self) -> HandViewModel {
        HandViewModel {
            cards: self.cards@,
            score: self.score,
            bet_amount: self.bet_amount,
            is_complete: self.is_complete,
        }
    }
}

/// The snapshot of a round.
#[derive(Debug, Clone)]
pub struct BlackjackView {
    pub available_actions: Vec<PlayerAction>,
    pub phase: BlackjackState,
    pub player_hands: Vec<PlayerHandView>,
    pub active_hand_index: usize,
    pub dealer_cards: Vec<VisibleCard>,
    pub dealer_visible_score: Option<u8>,
    pub dealer_has_hidden_card: bool,
    pub bank_balance: u32,
    pub total_bet: u32,
    pub result: GameResult,
    pub can_hit: bool,
    pub can_stay: bool,
    pub can_start_new_round: bool,
}

pub ghost struct ViewModel {
    pub available_actions: Seq<PlayerAction>,
    pub phase: BlackjackState,
    pub player_hands: Seq<HandViewModel>,
    pub active_hand_index: usize,
    pub dealer_cards: Seq<VisibleCard>,
    pub dealer_visible_score: Option<u8>,
    pub dealer_has_hidden_card: bool,
    pub bank_balance: u32,
    pub total_bet: u32,
    pub result: GameResult,
    pub can_hit: bool,
    pub can_stay: bool,
    pub can_start_new_round: bool,
}

impl View for BlackjackView {
    type V = ViewModel;

    open spec fn view(&self) -> ViewModel {
        ViewModel {
            available_actions: self.available_actions@,
            phase: self.phase,
            player_hands: self.player_hands@.map_values(|h: PlayerHandView| h@),
            active_hand_index: self.active_hand_index,
            dealer_cards: self.dealer_cards@,
            dealer_visible_score: self.dealer_visible_score,
            dealer_has_hidden_card: self.dealer_has_hidden_card,
            bank_balance: self.bank_balance,
            total_bet: self.total_bet,
            result: self.result,
            can_hit: self.can_hit,
            can_stay: self.can_stay,
            can_start_new_round: self.can_start_new_round,
        }
    }
}

pub open spec fn face_up(cards: Seq<Card>) -> Seq<VisibleCard> {
    cards.map_values(|c: Card| VisibleCard::FaceUp(c))
}

/// Every card face up.
pub fn face_up_cards(cards: &[Card]) -> (r: Vec<VisibleCard>)
    ensures
        r@ == face_up(cards@),
{
    let mut out: Vec<VisibleCard> = Vec::new();
    let mut i: usize = 0;
    while i < cards.len()
        invariant
            i <= cards@.len(),
            out@ == face_up(cards@.subrange(0, i as int)),
        decreases cards@.len() - i,
    {
        out.push(VisibleCard::FaceUp(cards[i]));
        assert(face_up(cards@.subrange(0, i + 1)) =~= face_up(cards@.subrange(0, i as int)).push(
            VisibleCard::FaceUp(cards@[i as int]),
        ));
        i = i + 1;
    }
    assert(cards@.subrange(0, i as int) == cards@);
    out
}

/// The cards after the first.
pub fn cards_after_first(cards: &[Card]) -> (r: Vec<Card>)
    requires
        cards@.len() >= 1,
    ensures
        r@ == dealer_up_cards(cards@),
{
    let mut out: Vec<Card> = Vec::new();
    let mut i: usize = 1;
    while i < cards.len()
        invariant
            1 <= i <= cards@.len(),
            out@ == cards@.subrange(1, i as int),
        decreases cards@.len() - i,
    {
        out.push(cards[i]);
        assert(cards@.subrange(1, i + 1) =~= cards@.subrange(1, i as int).push(cards@[i as int]));
        i = i + 1;
    }
    out
}

pub open spec fn hand_view(h: HandModel) -> HandViewModel {
    HandViewModel {
        cards: face_up(h.cards),
        score: score(h.cards) as u8,
        bet_amount: h.bet,
        is_complete: h.complete,
    }
}

/// The hole card is hidden while cards are dealt and the player decides.
pub open spec fn hole_hidden(state: BlackjackState) -> bool {
    match state {
        BlackjackState::Dealing | BlackjackState::PlayerTurn { .. } => true,
        _ => false,
    }
}

/// The dealer's cards after the hole card.
pub open spec fn dealer_up_cards(dealer: Seq<Card>) -> Seq<Card> {
    dealer.subrange(1, dealer.len() as int)
}

pub open spec fn dealer_cards_view(state: BlackjackState, dealer: Seq<Card>) -> Seq<VisibleCard> {
    if hole_hidden(state) && dealer.len() > 0 {
        seq![VisibleCard::FaceDown] + face_up(dealer_up_cards(dealer))
    } else {
        face_up(dealer)
    }
}

/// The dealer's score as shown: from the face-up cards only while the hole
/// card is hidden (none when no card is face up).
pub open spec fn dealer_score_view(state: BlackjackState, dealer: Seq<Card>) -> Option<u8> {
    if hole_hidden(state) {
        if dealer.len() <= 1 {
            None
        } else {
            Some(score(dealer_up_cards(dealer)) as u8)
        }
    } else {
        Some(score(dealer) as u8)
    }
}

/// Double: two cards on an open hand and a bank that covers the bet again.
pub open spec fn double_available(m: RoundModel, h: HandModel) -> bool {
    h.cards.len() == 2 && !h.complete && m.balance >= h.bet
}

/// Split: a splittable pair and a bank that covers a second bet.
pub open spec fn split_available(m: RoundModel, h: HandModel) -> bool {
    splittable(h.cards, split_context_of(m.hands)) && m.balance >= h.bet
}

/// The legal actions: during the player's turn Split and Double when
/// available, then Hit and Stay; none otherwise.
pub open spec fn legal_actions(m: RoundModel) -> Seq<PlayerAction> {
    match m.state {
        BlackjackState::PlayerTurn { hand_index } => {
            let h = m.hands[hand_index as int];
            (if split_available(m, h) {
                seq![PlayerAction::Split]
            } else {
                Seq::empty()
            }) + (if double_available(m, h) {
                seq![PlayerAction::Double]
            } else {
                Seq::empty()
            }) + seq![PlayerAction::Hit, PlayerAction::Stay]
        },
        _ => Seq::empty(),
    }
}

pub open spec fn total_bets(hands: Seq<HandModel>) -> nat
    decreases hands.len(),
{
    if hands.len() == 0 {
        0
    } else {
        total_bets(hands.drop_last()) + hands.last().bet as nat
    }
}

pub open spec fn is_player_turn(state: BlackjackState) -> bool {
    match state {
        BlackjackState::PlayerTurn { .. } => true,
        _ => false,
    }
}

/// The snapshot a round shows.
pub open spec fn view_of(m: RoundModel) -> ViewModel {
    ViewModel {
        available_actions: legal_actions(m),
        phase: m.state,
        player_hands: m.hands.map_values(|h: HandModel| hand_view(h)),
        active_hand_index: active_index(m.state) as usize,
        dealer_cards: dealer_cards_view(m.state, m.dealer),
        dealer_visible_score: dealer_score_view(m.state, m.dealer),
        dealer_has_hidden_card: hole_hidden(m.state),
        bank_balance: m.balance as u32,
        total_bet: total_bets(m.hands) as u32,
        result: m.result,
        can_hit: is_player_turn(m.state),
        can_stay: is_player_turn(m.state),
        can_start_new_round: m.state == BlackjackState::RoundOver,
    }
}

/// Once a round is over, every player action is ignored: the round stays
/// as it is, so the snapshot shown afterwards is the same.
pub proof fn lemma_round_over_is_stable(m: RoundModel, a: PlayerAction)
    requires
        m.state == BlackjackState::RoundOver,
    ensures
        apply_step(m, a).round == m,
        apply_step(m, a).events == seq![
            BlackjackEvent::ActionIgnored { action: a, state: BlackjackState::RoundOver },
        ],
        view_of(apply_step(m, a).round) == view_of(m),
{
}

/// The legal actions shown are exactly the actions that would be carried
/// out; any other action leaves the round unchanged.
pub proof fn lemma_legal_actions_are_allowed(m: RoundModel, a: PlayerAction)
    requires
        wf(m),
    ensures
        legal_actions(m).contains(a) <==> action_allowed(m, a),
        !action_allowed(m, a) ==> apply_step(m, a).round == m,
{
    let acts = legal_actions(m);
    match m.state {
        BlackjackState::PlayerTurn { hand_index } => {
            let h = m.hands[hand_index as int];
            if action_allowed(m, a) {
                match a {
                    PlayerAction::Hit => assert(acts[acts.len() - 2] == a),
                    PlayerAction::Stay => assert(acts[acts.len() - 1] == a),
                    PlayerAction::Double => {
                        if split_available(m, h) {
                            assert(acts[1] == a);
                        } else {
                            assert(acts[0] == a);
                        }
                    },
                    PlayerAction::Split => assert(acts[0] == a),
                }
            } else {
                if acts.contains(a) {
                    let k = choose|k: int| 0 <= k < acts.len() && acts[k] == a;
                    assert(false);
                }
            }
        },
        _ => {
            assert(acts.len() == 0);
        },
    }
}

/// When the bank cannot cover the active hand's bet again, neither Double
/// nor Split is offered, while Hit and Stay still are.
pub proof fn lemma_short_bank_offers_only_hit_and_stay(m: RoundModel)
    requires
        wf(m),
        is_player_turn(m.state),
        m.balance < m.hands[active_index(m.state)].bet,
    ensures
        legal_actions(m) == seq![PlayerAction::Hit, PlayerAction::Stay],
        !legal_actions(m).contains(PlayerAction::Double),
        !legal_actions(m).contains(PlayerAction::Split),
{
    let acts = legal_actions(m);
    assert(acts =~= seq![PlayerAction::Hit, PlayerAction::Stay]);
    assert(acts[0] != PlayerAction::Double && acts[1] != PlayerAction::Double);
    assert(acts[0] != PlayerAction::Split && acts[1] != PlayerAction::Split);
}

} // verus!
