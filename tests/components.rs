use card_games::bank::Bank;
use card_games::card::{Card, Suit, Value};
use card_games::deck::Deck;
use card_games::deck_type::DeckType;
use card_games::game::{decimal, BlackjackDisplay, BlackjackGame, FixedInput, Game, GameState, Turn};
use card_games::hand::Hand;
use card_games::player::Player;
use card_games::rules::{card_value, BlackjackRules, GameRules};
use card_games::session::{map_key_to_command, App, AppCommand};
use card_games::types::{BlackjackState, GameResult, PlayerAction};

#[test]
fn bank_withdraw_refuses_overdraft() {
    let mut bank = Bank::new(10);
    assert!(!bank.withdraw(11));
    assert_eq!(bank.balance(), 10);
    assert!(bank.withdraw(10));
    assert_eq!(bank.balance(), 0);
    bank.deposit(25);
    assert_eq!(bank.balance(), 25);
}

#[test]
fn suits_and_values_classify() {
    assert_eq!(Suit::standard_suits(), vec![Suit::CLUBS, Suit::DIAMONDS, Suit::HEARTS, Suit::SPADES]);
    assert_eq!(Value::standard_values().len(), 13);
    assert!(Suit::HEARTS.is_red() && !Suit::HEARTS.is_black());
    assert!(Suit::SPADES.is_black() && !Suit::JOKER.is_red() && !Suit::JOKER.is_black());
    assert!(Value::JACK.is_face_card() && !Value::TEN.is_face_card());
    assert!(Value::TEN.is_numeric() && !Value::ACE.is_numeric() && !Value::KING.is_numeric());
    assert!(Value::ACE.is_ace());
    assert_eq!(Value::ACE.rank(), Some(1));
    assert_eq!(Value::KING.rank(), Some(13));
    assert_eq!(Value::JOKER.rank(), None);
    let card = Card::new(Suit::DIAMONDS, Value::QUEEN);
    assert!(card.is_red() && card.is_face_card() && !card.is_black());
    assert_eq!(card.rank(), Some(12));
    assert_eq!(Card::joker().rank(), None);
    assert_eq!(Card::new(Suit::SPADES, Value::ACE).to_string(), "Ace of ♠");
}

#[test]
fn card_values_follow_blackjack_points() {
    assert_eq!(card_value(&Card::new(Suit::SPADES, Value::ACE)), 11);
    assert_eq!(card_value(&Card::new(Suit::SPADES, Value::SEVEN)), 7);
    assert_eq!(card_value(&Card::new(Suit::SPADES, Value::KING)), 10);
    assert_eq!(card_value(&Card::joker()), 0);
    assert_eq!(<BlackjackRules as GameRules>::card_value(&Card::new(Suit::CLUBS, Value::QUEEN)), 10);
}

#[test]
fn hand_text_lists_cards_between_bars() {
    let mut hand = Hand::new();
    hand.add(Card::new(Suit::HEARTS, Value::TEN));
    hand.add(Card::new(Suit::CLUBS, Value::ACE));
    assert_eq!(hand.to_string(), "|Ten of ♥||Ace of ♣|");
    assert_eq!(Hand::new().to_string(), "");
}

#[test]
fn deck_draws_from_the_top() {
    let mut deck = Deck::from_cards(vec![
        Card::new(Suit::HEARTS, Value::TWO),
        Card::new(Suit::CLUBS, Value::THREE),
    ]);
    assert_eq!(deck.draw(), Some(Card::new(Suit::HEARTS, Value::TWO)));
    assert_eq!(deck.len(), 1);
    assert_eq!(deck.draw(), Some(Card::new(Suit::CLUBS, Value::THREE)));
    assert_eq!(deck.draw(), None);
    assert!(deck.is_empty());
}

#[test]
fn standard_deck_order_is_suit_by_suit() {
    let deck = Deck::new(DeckType::Standard52);
    let cards = deck.cards();
    assert_eq!(cards[0], Card::new(Suit::CLUBS, Value::ACE));
    assert_eq!(cards[12], Card::new(Suit::CLUBS, Value::KING));
    assert_eq!(cards[13], Card::new(Suit::DIAMONDS, Value::ACE));
    assert_eq!(cards[51], Card::new(Suit::SPADES, Value::KING));
    let custom = Deck::new(DeckType::Custom(vec![Card::joker()]));
    assert_eq!(custom.remaining_cards(), 1);
}

#[test]
fn shuffle_keeps_the_cards_and_changes_the_order() {
    let ordered = Deck::new(DeckType::Standard52);
    let mut deck = Deck::new(DeckType::Standard52);
    deck.shuffle();
    assert_eq!(deck.remaining_cards(), 52);
    for card in ordered.cards() {
        assert!(deck.cards().contains(card));
    }
    assert_ne!(deck, ordered);
}

#[test]
fn players_keep_name_and_role() {
    let mut player = Player::new("Kyle".to_string());
    assert_eq!(player.name(), "Kyle");
    assert_eq!(player.get_player_name(), "Kyle");
    assert!(!player.is_dealer());
    player.set_dealer(true);
    assert!(player.is_dealer());
    player.hand.add(Card::joker());
    player.reset_hand();
    assert!(player.hand.is_empty());
    let house = Player::default();
    assert_eq!(house.name(), "CPU");
    assert!(house.is_dealer());
}

#[test]
fn results_and_states_have_text() {
    assert_eq!(GameResult::Push.to_string(), "🤝 Push!");
    assert_eq!(GameResult::PlayerWin.to_string(), "🎉 You win!");
    assert_eq!(BlackjackState::PlayerTurn { hand_index: 1 }.to_string(), "Your turn");
    assert_eq!(BlackjackState::RoundOver.to_string(), "Round over");
    assert_eq!(GameResult::determine(22, 25), GameResult::DealerWin);
    assert_eq!(GameResult::determine(18, 23), GameResult::PlayerWin);
}

#[test]
fn decimal_writes_digits() {
    assert_eq!(decimal(0), "0");
    assert_eq!(decimal(7), "7");
    assert_eq!(decimal(21), "21");
    assert_eq!(decimal(255), "255");
}

struct Recorder {
    lines: Vec<String>,
}

impl BlackjackDisplay for Recorder {
    fn show_turn(&mut self, _turn: &Turn) {}

    fn show_hand(&mut self, label: &str, hand: &Hand) {
        self.lines.push(format!("{} hand: {}", label, hand.to_string()));
    }

    fn show_score(&mut self, label: &str, score: u8) {
        self.lines.push(format!("{} score: {}", label, score));
    }

    fn show_card_drawn(&mut self, card: &Card) {
        self.lines.push(format!("Drew: {}", card.to_string()));
    }

    fn show_result(&mut self, result: &GameResult) {
        self.lines.push(result.to_string());
    }

    fn show_message(&mut self, message: &str) {
        self.lines.push(message.to_string());
    }
}

fn console_game(response: &str, cards: Vec<Card>) -> BlackjackGame<FixedInput, Recorder> {
    let mut game = BlackjackGame::new(
        FixedInput { response: response.to_string() },
        Recorder { lines: Vec::new() },
    );
    game.deck = Deck::from_cards(cards);
    game
}

#[test]
fn console_round_stay_then_dealer_plays() {
    let mut game = console_game(
        "s",
        vec![
            Card::new(Suit::SPADES, Value::TEN),
            Card::new(Suit::HEARTS, Value::TEN),
            Card::new(Suit::CLUBS, Value::NINE),
            Card::new(Suit::DIAMONDS, Value::SIX),
            Card::new(Suit::SPADES, Value::KING),
        ],
    );
    game.setup();
    assert_eq!(game.players.player.hand.len(), 2);
    assert_eq!(game.players.dealer.hand.len(), 2);
    game.play_turn();
    assert_eq!(game.turn, Turn::Dealer);
    game.play_turn();
    assert_eq!(game.turn, Turn::Done);
    assert_eq!(game.players.dealer.hand.len(), 3);
    assert!(!game.is_finished());
    game.play_turn();
    assert!(game.is_finished());
    assert_eq!(game.state, GameState::Complete);
    assert_eq!(game.winner(), GameResult::PlayerWin);
    assert!(game.display.lines.contains(&"Dealer is showing: |Ten of ♥|".to_string()));
    assert!(game.display.lines.contains(&"Dealer busted!".to_string()));
    assert!(game
        .display
        .lines
        .contains(&"Your final hand: |Ten of ♠||Nine of ♣| (Score: 19)".to_string()));
}

#[test]
fn console_round_hit_to_bust() {
    let mut game = console_game(
        "hit",
        vec![
            Card::new(Suit::SPADES, Value::TEN),
            Card::new(Suit::HEARTS, Value::TEN),
            Card::new(Suit::CLUBS, Value::SIX),
            Card::new(Suit::DIAMONDS, Value::SEVEN),
            Card::new(Suit::SPADES, Value::KING),
        ],
    );
    game.setup();
    game.play_turn();
    assert_eq!(game.turn, Turn::Done);
    assert_eq!(game.result, GameResult::DealerWin);
    assert!(game.display.lines.contains(&"You bust!".to_string()));
}

#[test]
fn console_round_ignores_unknown_answers() {
    let mut game = console_game(
        "x",
        vec![
            Card::new(Suit::SPADES, Value::TEN),
            Card::new(Suit::HEARTS, Value::TEN),
            Card::new(Suit::CLUBS, Value::SIX),
            Card::new(Suit::DIAMONDS, Value::SEVEN),
        ],
    );
    game.setup();
    game.play_turn();
    assert_eq!(game.turn, Turn::Player);
    assert_eq!(game.players.player.hand.len(), 2);
    assert!(game
        .display
        .lines
        .contains(&"Invalid input. Please type 'h' or 's'.".to_string()));
}

#[test]
fn keys_map_to_commands() {
    assert_eq!(map_key_to_command('h'), Some(AppCommand::Action(PlayerAction::Hit)));
    assert_eq!(map_key_to_command('p'), Some(AppCommand::Action(PlayerAction::Split)));
    assert_eq!(map_key_to_command('n'), Some(AppCommand::NewRound));
    assert_eq!(map_key_to_command('q'), Some(AppCommand::Quit));
    assert_eq!(map_key_to_command('x'), None);
}

#[test]
fn session_starts_a_round_and_quits() {
    let mut app = App::new();
    assert!(!app.should_quit());
    assert!(!app.last_events().is_empty());
    let view = app.view();
    assert_eq!(view.player_hands[0].cards.len(), 2);
    assert!(app.can_handle(AppCommand::Quit));
    app.handle_command(AppCommand::Quit);
    assert!(app.should_quit());
}

#[test]
fn deal_goes_round_robin_while_cards_remain() {
    let cards = vec![
        Card::new(Suit::CLUBS, Value::TWO),
        Card::new(Suit::CLUBS, Value::THREE),
        Card::new(Suit::CLUBS, Value::FOUR),
    ];
    let mut deck = Deck::from_cards(cards.clone());
    let mut players = vec![Player::new("Kyle".to_string()), Player::default()];
    deck.deal(2, &mut players);
    assert_eq!(players[0].hand.cards(), &[cards[0], cards[2]][..]);
    assert_eq!(players[1].hand.cards(), &[cards[1]][..]);
    assert!(deck.is_empty());

    let mut full = Deck::new(DeckType::Standard52);
    let mut nobody: Vec<Player> = Vec::new();
    full.deal(2, &mut nobody);
    assert_eq!(full.remaining_cards(), 52);
}
