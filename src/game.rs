//! A console round against the house, advanced one turn at a time through
//! an input and a display that the caller provides.
use vstd::prelude::*;
use crate::card::Card;
use crate::deck::Deck;
use crate::deck_builder::DeckBuilder;
use crate::hand::Hand;
use crate::player::Player;
use crate::round::{dealer_draws, lemma_hard_nonneg, lemma_push_totals, lemma_two_cards};
use crate::rules::{BlackjackRules, bust, hard_total, score};
use crate::types::{GameResult, compare_totals};

verus! {

/// A game played turn by turn until it finishes.
pub trait Game {
    type Outcome;

    /// The game is waiting for its opening deal.
    spec fn ready_for_setup(&self) -> bool;

    /// The game is dealt and can take its next turn.
    spec fn ready_to_play(&self) -> bool;

    spec fn finished(&self) -> bool;

    spec fn outcome(&self) -> Self::Outcome;

    fn setup(&mut self)
        requires
            old(self).ready_for_setup(),
        ensures
            final(self).ready_to_play(),
    ;

    /// Plays the next turn.
    fn play_turn(&mut self)
        requires
            old(self).ready_to_play(),
        ensures
            final(self).ready_to_play(),
    ;

    fn is_finished(&self) -> (r: bool)
        ensures
            r == self.finished(),
    ;

    fn winner(&self) -> (r: Self::Outcome)
        ensures
            r == self.outcome(),
    ;
}

/// The lifecycle of a game.
#[derive(Debug, Clone, Copy, PartialEq, Eq, Structural)]
pub enum GameState {
    Waiting,
    InProgress,
    Complete,
}

/// Whose turn it is in a console round.
#[derive(Debug, Clone, Copy, PartialEq, Eq, Structural)]
pub enum Turn {
    Player,
    Dealer,
    Done,
}

/// Where the player's decisions come from.
pub trait PlayerInput {
    fn choose_action(&self, hand: &Hand) -> String;
}

/// Answers every decision with the same response.
pub struct FixedInput {
    pub response: String,
}

impl PlayerInput for FixedInput {
    fn choose_action(&self, _hand: &Hand) -> String {
        self.response.clone()
    }
}

/// Where a console round reports what happens.
pub trait BlackjackDisplay {
    fn show_turn(&mut self, turn: &Turn);

    fn show_hand(&mut self, label: &str, hand: &Hand);

    fn show_score(&mut self, label: &str, score: u8);

    fn show_card_drawn(&mut self, card: &Card);

    fn show_result(&mut self, result: &GameResult);

    fn show_message(&mut self, message: &str);
}

/// The player and the house.
pub struct BlackjackPlayers {
    pub player: Player,
    pub dealer: Player,
}

/// "h" or "hit".
pub open spec fn is_hit(choice: Seq<char>) -> bool {
    choice == "h"@ || choice == "hit"@
}

/// "s" or "stay".
pub open spec fn is_stay(choice: Seq<char>) -> bool {
    choice == "s"@ || choice == "stay"@
}

pub open spec fn digit_text(d: nat) -> Seq<char> {
    if d == 0 {
        "0"@
    } else if d == 1 {
        "1"@
    } else if d == 2 {
        "2"@
    } else if d == 3 {
        "3"@
    } else if d == 4 {
        "4"@
    } else if d == 5 {
        "5"@
    } else if d == 6 {
        "6"@
    } else if d == 7 {
        "7"@
    } else if d == 8 {
        "8"@
    } else {
        "9"@
    }
}

/// The decimal digits of `n`.
pub open spec fn decimal_text(n: nat) -> Seq<char>
    decreases n,
{
    if n < 10 {
        digit_text(n)
    } else {
        decimal_text(n / 10) + digit_text(n % 10)
    }
}

fn digit(d: u8) -> (r: String)
    requires
        d < 10,
    ensures
        r@ == digit_text(d as nat),
{
    if d == 0 {
        String::from_str("0")
    } else if d == 1 {
        String::from_str("1")
    } else if d == 2 {
        String::from_str("2")
    } else if d == 3 {
        String::from_str("3")
    } else if d == 4 {
        String::from_str("4")
    } else if d == 5 {
        String::from_str("5")
    } else if d == 6 {
        String::from_str("6")
    } else if d == 7 {
        String::from_str("7")
    } else if d == 8 {
        String::from_str("8")
    } else {
        String::from_str("9")
    }
}

/// `n` written in decimal.
pub fn decimal(n: u8) -> (r: String)
    ensures
        r@ == decimal_text(n as nat),
{
    if n < 10 {
        digit(n)
    } else if n < 100 {
        let mut s = digit(n / 10);
        let last = digit(n % 10);
        s.append(last.as_str());
        assert(decimal_text((n / 10) as nat) == digit_text((n / 10) as nat));
        assert(decimal_text(n as nat) == decimal_text((n / 10) as nat) + digit_text((n % 10) as nat));
        s
    } else {
        let mut s = digit(n / 100);
        let mid = digit((n / 10) % 10);
        let last = digit(n % 10);
        s.append(mid.as_str());
        s.append(last.as_str());
        assert((n / 10) / 10 == n / 100);
        assert(decimal_text((n / 100) as nat) == digit_text((n / 100) as nat));
        assert(decimal_text((n / 10) as nat) == decimal_text((n / 100) as nat) + digit_text(((n / 10) % 10) as nat));
        assert(decimal_text(n as nat) == decimal_text((n / 10) as nat) + digit_text((n % 10) as nat));
        assert(s@ =~= decimal_text(n as nat));
        s
    }
}

/// The result of final totals: a player over 21 loses, else a dealer over
/// 21 loses, else the higher total wins and equal totals push.
pub fn determine_result(p_score: u8, d_score: u8) -> (r: GameResult)
    ensures
        r == compare_totals(p_score as int, d_score as int),
{
    if p_score > 21 {
        GameResult::DealerWin
    } else if d_score > 21 {
        GameResult::PlayerWin
    } else if p_score > d_score {
        GameResult::PlayerWin
    } else if p_score < d_score {
        GameResult::DealerWin
    } else {
        GameResult::Push
    }
}

/// A console round: the player draws until standing or busting, then the
/// house draws below 17, then the totals decide.
pub struct BlackjackGame<I: PlayerInput, D: BlackjackDisplay> {
    pub input: I,
    pub display: D,
    pub deck: Deck,
    pub players: BlackjackPlayers,
    pub turn: Turn,
    pub state: GameState,
    pub result: GameResult,
}

impl<I: PlayerInput, D: BlackjackDisplay> BlackjackGame<I, D> {
    pub open spec fn player_cards(&self) -> Seq<Card> {
        self.players.player.hand@
    }

    pub open spec fn dealer_cards(&self) -> Seq<Card> {
        self.players.dealer.hand@
    }

    /// The bounds that keep every total within a `u8`, and a dealt table
    /// with a player who has not bust during the player's turn.
    pub open spec fn bounded(&self) -> bool {
        &&& hard_total(self.player_cards()) <= 31
        &&& hard_total(self.dealer_cards()) <= 26
        &&& self.turn == Turn::Player ==> hard_total(self.player_cards()) <= 21
            && self.dealer_cards().len() >= 1
    }

    /// A shuffled standard deck, the player "You" and the house, the
    /// player to act first.
    pub fn new(input: I, display: D) -> (r: Self)
        ensures
            r.deck@.len() == 52,
            r.deck@.to_multiset() == crate::deck_builder::standard_deck().to_multiset(),
            r.player_cards() == Seq::<Card>::empty(),
            r.dealer_cards() == Seq::<Card>::empty(),
            r.players.player.name_spec() == "You"@,
            !r.players.player.dealer_spec(),
            r.players.dealer.name_spec() == "CPU"@,
            r.players.dealer.dealer_spec(),
            r.turn == Turn::Player,
            r.state == GameState::InProgress,
            r.result == GameResult::Pending,
    {
        let mut deck = DeckBuilder::new().standard52().build();
        proof {
            crate::deck_builder::lemma_standard_deck_len();
            crate::deck_builder::lemma_repeated_once(crate::deck_builder::standard_deck());
        }
        deck.shuffle();
        let player = Player::new(String::from_str("You"));
        let dealer = Player::default();
        Self {
            input,
            display,
            deck,
            players: BlackjackPlayers { player, dealer },
            turn: Turn::Player,
            state: GameState::InProgress,
            result: GameResult::Pending,
        }
    }

    /// Deals two cards each, alternating player and house: the player gets
    /// the first and third cards, the house the second and fourth.
    pub fn deal_opening_hands(&mut self)
        requires
            old(self).player_cards().len() == 0,
            old(self).dealer_cards().len() == 0,
            old(self).deck@.len() >= 4,
        ensures
            final(self).player_cards() == seq![old(self).deck@[0], old(self).deck@[2]],
            final(self).dealer_cards() == seq![old(self).deck@[1], old(self).deck@[3]],
            final(self).deck@ == old(self).deck@.skip(4),
            final(self).turn == old(self).turn,
            final(self).state == old(self).state,
            final(self).result == old(self).result,
            final(self).bounded(),
    {
        let ghost deck = self.deck@;
        let mut round: usize = 0;
        while round < 2
            invariant
                round <= 2,
                self.deck@ == deck.skip(2 * round as int),
                self.player_cards() =~= Seq::new(round as nat, |k: int| deck[2 * k]),
                self.dealer_cards() =~= Seq::new(round as nat, |k: int| deck[2 * k + 1]),
                deck.len() >= 4,
                self.turn == old(self).turn,
                self.state == old(self).state,
                self.result == old(self).result,
            decreases 2 - round,
        {
            if let Some(card) = self.deck.draw() {
                self.players.player.hand.add(card);
            }
            if let Some(card) = self.deck.draw() {
                self.players.dealer.hand.add(card);
            }
            round = round + 1;
        }
        proof {
            lemma_two_cards(self.player_cards());
            lemma_two_cards(self.dealer_cards());
            assert(self.player_cards() =~= seq![deck[0], deck[2]]);
            assert(self.dealer_cards() =~= seq![deck[1], deck[3]]);
        }
    }

    /// What the player's answer does: a hit draws the top card (a bust ends
    /// the player's turn with a loss; with an empty deck nothing happens), a
    /// stay hands the turn to the house, anything else changes nothing.
    pub open spec fn choice_applied(self, next: Self, choice: Seq<char>) -> bool {
        let unchanged_hand = next.player_cards() == self.player_cards() && next.deck@ == self.deck@;
        if is_hit(choice) {
            if self.deck@.len() > 0 {
                let cards = self.player_cards().push(self.deck@[0]);
                &&& next.player_cards() == cards
                &&& next.deck@ == self.deck@.drop_first()
                &&& bust(cards) ==> next.result == GameResult::DealerWin && next.turn == Turn::Done
                &&& !bust(cards) ==> next.result == self.result && next.turn == self.turn
            } else {
                unchanged_hand && next.turn == self.turn && next.result == self.result
            }
        } else if is_stay(choice) {
            unchanged_hand && next.turn == Turn::Dealer && next.result == self.result
        } else {
            unchanged_hand && next.turn == self.turn && next.result == self.result
        }
    }

    /// Acts on the player's answer: a hit draws a card (a bust ends the
    /// round for the player), a stay hands over to the house, anything else
    /// changes nothing.
    pub fn apply_choice(&mut self, choice: &String)
        requires
            old(self).bounded(),
            old(self).turn == Turn::Player,
        ensures
            final(self).dealer_cards() == old(self).dealer_cards(),
            final(self).state == old(self).state,
            final(self).bounded(),
            (*old(self)).choice_applied(*final(self), choice@),
    {
        let h = String::from_str("h");
        let hit = String::from_str("hit");
        let s = String::from_str("s");
        let stay = String::from_str("stay");
        if choice.eq(&h) || choice.eq(&hit) {
            if let Some(card) = self.deck.draw() {
                self.display.show_card_drawn(&card);
                proof {
                    lemma_hard_nonneg(self.player_cards());
                    lemma_push_totals(self.player_cards(), card);
                }
                self.players.player.hand.add(card);
                proof {
                    lemma_hard_nonneg(self.player_cards());
                }
                let score = BlackjackRules::hand_score(self.players.player.hand.cards());
                self.display.show_score("You", score);
                if BlackjackRules::is_bust(self.players.player.hand.cards()) {
                    self.display.show_message("You bust!");
                    self.result = GameResult::DealerWin;
                    self.turn = Turn::Done;
                }
            }
        } else if choice.eq(&s) || choice.eq(&stay) {
            self.display.show_message("You chose to stay.");
            self.turn = Turn::Dealer;
        } else {
            self.display.show_message("Invalid input. Please type 'h' or 's'.");
        }
    }

    /// Shows the table, then ends the turn with a loss if the player is
    /// bust, else asks for an answer and acts on it.
    fn handle_player_turn(&mut self)
        requires
            old(self).bounded(),
            old(self).turn == Turn::Player,
        ensures
            final(self).bounded(),
            final(self).dealer_cards() == old(self).dealer_cards(),
            final(self).state == old(self).state,
            bust(old(self).player_cards()) ==> final(self).result == GameResult::DealerWin
                && final(self).turn == Turn::Done && final(self).player_cards() == old(
                self,
            ).player_cards() && final(self).deck@ == old(self).deck@,
            !bust(old(self).player_cards()) ==> exists|choice: Seq<char>|
                #[trigger] (*old(self)).choice_applied(*final(self), choice),
    {
        let ghost g0 = *self;
        let visible_card = self.players.dealer.hand.cards()[0];
        self.display.show_turn(&self.turn);
        let mut showing = String::from_str("Dealer is showing: |");
        let card_text = visible_card.to_string();
        showing.append(card_text.as_str());
        showing.append("|");
        self.display.show_message(showing.as_str());
        self.display.show_hand("You", &self.players.player.hand);
        proof {
            lemma_hard_nonneg(self.player_cards());
        }
        let score = BlackjackRules::hand_score(self.players.player.hand.cards());
        self.display.show_score("You", score);
        if BlackjackRules::is_bust(self.players.player.hand.cards()) {
            self.display.show_message("You bust!");
            self.result = GameResult::DealerWin;
            self.turn = Turn::Done;
            return;
        }
        let choice = self.input.choose_action(&self.players.player.hand);
        self.apply_choice(&choice);
        assert(g0.choice_applied(*self, choice@));
    }

    /// The house draws while below 17 and cards remain, then the round
    /// moves to its end.
    fn handle_dealer_turn(&mut self)
        requires
            old(self).bounded(),
            old(self).turn == Turn::Dealer,
        ensures
            final(self).bounded(),
            final(self).dealer_cards() == dealer_draws(old(self).dealer_cards(), old(self).deck@).0,
            final(self).deck@ == dealer_draws(old(self).dealer_cards(), old(self).deck@).1,
            final(self).player_cards() == old(self).player_cards(),
            final(self).turn == Turn::Done,
            final(self).state == old(self).state,
            final(self).result == old(self).result,
    {
        let ghost target = dealer_draws(self.dealer_cards(), self.deck@);
        self.display.show_turn(&self.turn);
        self.display.show_hand("Dealer", &self.players.dealer.hand);
        proof {
            lemma_hard_nonneg(self.dealer_cards());
        }
        let mut score = BlackjackRules::hand_score(self.players.dealer.hand.cards());
        self.display.show_score("Dealer", score);
        while score < 17 && !self.deck.is_empty()
            invariant
                self.bounded(),
                self.turn == Turn::Dealer,
                score as int == crate::rules::score(self.dealer_cards()),
                dealer_draws(self.dealer_cards(), self.deck@) == target,
                self.player_cards() == old(self).player_cards(),
                self.state == old(self).state,
                self.result == old(self).result,
            decreases self.deck@.len(),
        {
            self.display.show_message("Dealer hits.");
            proof {
                lemma_hard_nonneg(self.dealer_cards());
                lemma_push_totals(self.dealer_cards(), self.deck@[0]);
            }
            if let Some(card) = self.deck.draw() {
                self.display.show_card_drawn(&card);
                self.players.dealer.hand.add(card);
                proof {
                    lemma_hard_nonneg(self.dealer_cards());
                }
                score = BlackjackRules::hand_score(self.players.dealer.hand.cards());
                self.display.show_score("Dealer", score);
            }
        }
        if score < 17 {
            self.display.show_message("Dealer hits.");
            self.display.show_message("Deck is empty. Dealer cannot draw.");
        }
        if score >= 17 && score <= 21 {
            self.display.show_message("Dealer stays.");
        } else if score > 21 {
            self.display.show_message("Dealer busted!");
        }
        self.display.show_hand("Dealer", &self.players.dealer.hand);
        self.display.show_score("Dealer", score);
        self.turn = Turn::Done;
    }

    /// Shows both final hands, decides the result from the totals and
    /// completes the game.
    fn end_game(&mut self)
        requires
            old(self).bounded(),
        ensures
            final(self).bounded(),
            final(self).result == compare_totals(
                score(old(self).player_cards()),
                score(old(self).dealer_cards()),
            ),
            final(self).state == GameState::Complete,
            final(self).player_cards() == old(self).player_cards(),
            final(self).dealer_cards() == old(self).dealer_cards(),
            final(self).deck@ == old(self).deck@,
            final(self).turn == old(self).turn,
    {
        proof {
            lemma_hard_nonneg(self.player_cards());
            lemma_hard_nonneg(self.dealer_cards());
        }
        let p_score = BlackjackRules::hand_score(self.players.player.hand.cards());
        let d_score = BlackjackRules::hand_score(self.players.dealer.hand.cards());
        let mut mine = String::from_str("Your final hand: ");
        let hand_text = self.players.player.hand.to_string();
        mine.append(hand_text.as_str());
        mine.append(" (Score: ");
        let p_text = decimal(p_score);
        mine.append(p_text.as_str());
        mine.append(")");
        self.display.show_message(mine.as_str());
        let mut theirs = String::from_str("Dealer final hand: ");
        let dealer_text = self.players.dealer.hand.to_string();
        theirs.append(dealer_text.as_str());
        theirs.append(" (Score: ");
        let d_text = decimal(d_score);
        theirs.append(d_text.as_str());
        theirs.append(")");
        self.display.show_message(theirs.as_str());
        let result = determine_result(p_score, d_score);
        self.display.show_result(&result);
        self.result = result;
        self.state = GameState::Complete;
    }
}

impl<I: PlayerInput, D: BlackjackDisplay> Game for BlackjackGame<I, D> {
    type Outcome = GameResult;

    open spec fn ready_for_setup(&self) -> bool {
        &&& self.player_cards().len() == 0
        &&& self.dealer_cards().len() == 0
        &&& self.deck@.len() >= 4
    }

    open spec fn ready_to_play(&self) -> bool {
        self.bounded()
    }

    open spec fn finished(&self) -> bool {
        self.state == GameState::Complete
    }

    open spec fn outcome(&self) -> GameResult {
        self.result
    }

    /// Deals the opening hands.
    fn setup(&mut self) {
        self.deal_opening_hands();
    }

    fn play_turn(&mut self) {
        match self.turn {
            Turn::Player => self.handle_player_turn(),
            Turn::Dealer => self.handle_dealer_turn(),
            Turn::Done => self.end_game(),
        }
    }

    fn is_finished(&self) -> bool {
        match self.state {
            GameState::Complete => true,
            _ => false,
        }
    }

    fn winner(&self) -> GameResult {
        self.result
    }
}

} // verus!
