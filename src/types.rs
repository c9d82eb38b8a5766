//! The data of a Blackjack round: the shoe, the hands on the table, the
//! round's state, the player's actions, results and events.
use vstd::prelude::*;
use crate::bank::Bet;
use crate::card::Card;
use crate::deck::Deck;
use crate::deck_builder::{DeckBuilder, lemma_repeated_once, lemma_standard_deck_len, standard_deck};
use crate::hand::Hand;
use crate::rules::score;

verus! {

/// The wager placed on each new hand.
pub const DEFAULT_BET: u32 = 10;

/// The balance a new game starts with.
pub const STARTING_BALANCE: u32 = 1000;

/// Below this many cards the shoe is replaced before the next round.
pub const RESHUFFLE_THRESHOLD: usize = 15;

/// The largest balance a round may start from: a round pays out at most 80
/// (two doubled hands winning twice their bet), which must still fit the
/// bank's `u32`.
pub const MAX_BALANCE: u32 = u32::MAX - 80;

/// The state of a round.
#[derive(Debug, Clone, Copy, PartialEq, Eq, Structural)]
pub enum BlackjackState {
    Dealing,
    PlayerTurn { hand_index: usize },
    DealerTurn,
    RoundOver,
}

/// The text shown for a state.
pub open spec fn state_text(s: BlackjackState) -> Seq<char> {
    match s {
        BlackjackState::Dealing => "Dealing cards..."@,
        BlackjackState::PlayerTurn { .. } => "Your turn"@,
        BlackjackState::DealerTurn => "Dealer's turn"@,
        BlackjackState::RoundOver => "Round over"@,
    }
}

impl BlackjackState {
    pub fn to_string(&self) -> (r: String)
        ensures
            r@ == state_text(*self),
    {
        match self {
            BlackjackState::Dealing => String::from_str("Dealing cards..."),
            BlackjackState::PlayerTurn { .. } => String::from_str("Your turn"),
            BlackjackState::DealerTurn => String::from_str("Dealer's turn"),
            BlackjackState::RoundOver => String::from_str("Round over"),
        }
    }
}

/// The supply of undealt cards; index 0 is drawn first.
#[derive(Debug, Clone, PartialEq)]
pub struct Shoe {
    deck: Deck,
}

impl View for Shoe {
    type V = Seq<Card>;

    closed spec fn view(&self) -> Seq<Card> {
        self.deck@
    }
}

impl Shoe {
    /// A standard 52-card deck in random order.
    pub fn new_shuffled() -> (r: Self)
        ensures
            r@.len() == 52,
            r@.to_multiset() == standard_deck().to_multiset(),
    {
        let mut deck = DeckBuilder::new().standard52().build();
        proof {
            lemma_standard_deck_len();
            lemma_repeated_once(standard_deck());
        }
        deck.shuffle();
        Self { deck }
    }

    pub fn remaining(&self) -> (r: usize)
        ensures
            r == self@.len(),
    {
        self.deck.len()
    }

    /// Removes and returns the top card.
    pub fn draw(&mut self) -> (r: Card)
        requires
            old(self)@.len() > 0,
        ensures
            r == old(self)@[0],
            final(self)@ == old(self)@.drop_first(),
    {
        match self.deck.draw() {
            Some(card) => card,
            None => {
                proof {
                    assert(false);
                }
                Card::joker()
            },
        }
    }

    /// The undealt cards, the next to be drawn first.
    pub fn cards(&self) -> (r: &[Card])
        ensures
            r@ == self@,
    {
        self.deck.cards()
    }

    /// A shoe that deals `draw_order` in order, its first card first.
    pub fn rigged(draw_order: Vec<Card>) -> (r: Self)
        ensures
            r@ == draw_order@,
    {
        Self { deck: Deck::from_cards(draw_order) }
    }
}

/// One wagered hand of the player.
#[derive(Debug, Clone)]
pub struct PlayerHand {
    pub hand: Hand,
    pub bet: Bet,
    pub is_complete: bool,
}

/// What the round's rules read of a player hand.
pub ghost struct HandModel {
    pub cards: Seq<Card>,
    pub bet: u32,
    pub complete: bool,
}

impl View for PlayerHand {
    type V = HandModel;

    open spec fn view(&self) -> HandModel {
        HandModel { cards: self.hand@, bet: self.bet.amount, complete: self.is_complete }
    }
}

impl PlayerHand {
    /// An empty, open hand carrying a bet of `bet_amount`.
    pub fn new(bet_amount: u32) -> (r: Self)
        ensures
            r@ == (HandModel { cards: Seq::empty(), bet: bet_amount, complete: false }),
    {
        PlayerHand { hand: Hand::new(), bet: Bet { amount: bet_amount }, is_complete: false }
    }
}

/// The dealer's hand and the player's hands (one, or two after a split).
#[derive(Debug, Clone)]
pub struct Table {
    pub player_hands: Vec<PlayerHand>,
    pub dealer_hand: Hand,
}

/// A decision of the player on the active hand.
#[derive(Debug, Clone, Copy, PartialEq, Eq, Structural)]
pub enum PlayerAction {
    Hit,
    Stay,
    Double,
    Split,
}

/// The outcome of a hand or of a round.
#[derive(Debug, Clone, Copy, PartialEq, Eq, Structural)]
pub enum GameResult {
    Pending,
    PlayerWin,
    DealerWin,
    Push,
}

/// Compares two totals: a player over 21 loses, else a dealer over 21
/// loses, else the higher total wins and equal totals push.
pub open spec fn compare_totals(player: int, dealer: int) -> GameResult {
    if player > 21 {
        GameResult::DealerWin
    } else if dealer > 21 {
        GameResult::PlayerWin
    } else if player > dealer {
        GameResult::PlayerWin
    } else if dealer > player {
        GameResult::DealerWin
    } else {
        GameResult::Push
    }
}

/// The outcome of a player hand against the dealer's hand.
pub open spec fn hand_outcome(cards: Seq<Card>, dealer: Seq<Card>) -> GameResult {
    compare_totals(score(cards), score(dealer))
}

/// The text shown for a result.
pub open spec fn result_text(r: GameResult) -> Seq<char> {
    match r {
        GameResult::Pending => "⏳ Game in progress..."@,
        GameResult::PlayerWin => "🎉 You win!"@,
        GameResult::DealerWin => "💥 Dealer wins!"@,
        GameResult::Push => "🤝 Push!"@,
    }
}

impl GameResult {
    /// The result of a player total against a dealer total.
    pub fn determine(player: u8, dealer: u8) -> (r: Self)
        ensures
            r == compare_totals(player as int, dealer as int),
    {
        if player > 21 {
            GameResult::DealerWin
        } else if dealer > 21 {
            GameResult::PlayerWin
        } else if player > dealer {
            GameResult::PlayerWin
        } else if dealer > player {
            GameResult::DealerWin
        } else {
            GameResult::Push
        }
    }

    pub fn to_string(&self) -> (r: String)
        ensures
            r@ == result_text(*self),
    {
        match self {
            GameResult::Pending => String::from_str("⏳ Game in progress..."),
            GameResult::PlayerWin => String::from_str("🎉 You win!"),
            GameResult::DealerWin => String::from_str("💥 Dealer wins!"),
            GameResult::Push => String::from_str("🤝 Push!"),
        }
    }
}

/// What happened during one call into the round.
#[derive(Debug, Clone, Copy, PartialEq, Eq, Structural)]
pub enum BlackjackEvent {
    ActionApplied { action: PlayerAction },
    ActionIgnored { action: PlayerAction, state: BlackjackState },
    StateChanged { from: BlackjackState, to: BlackjackState },
    RoundResolved { result: GameResult },
    RoundStarted,
    RoundStartIgnored { state: BlackjackState },
}

} // verus!
