use card_games::bank::Bank;
use card_games::blackjack::Blackjack;
use card_games::card::{Card, Suit, Value};
use card_games::rules::{can_split, dealer_should_hit, hand_score, is_blackjack, is_bust, SplitContext};
use card_games::types::{BlackjackEvent, BlackjackState, GameResult, PlayerAction, Shoe};

fn c(suit: Suit, value: Value) -> Card {
    Card::new(suit, value)
}

fn rigged(cards: Vec<Card>) -> Blackjack {
    let mut game = Blackjack::new();
    game.shoe = Shoe::rigged(cards);
    game
}

#[test]
fn soft_ace_is_counted_once() {
    let hand = vec![
        c(Suit::SPADES, Value::ACE),
        c(Suit::HEARTS, Value::NINE),
        c(Suit::CLUBS, Value::NINE),
    ];
    assert_eq!(hand_score(&hand), 19);
    let two_aces = vec![c(Suit::SPADES, Value::ACE), c(Suit::HEARTS, Value::ACE)];
    assert_eq!(hand_score(&two_aces), 12);
    let aces_and_nine = vec![
        c(Suit::SPADES, Value::ACE),
        c(Suit::HEARTS, Value::ACE),
        c(Suit::CLUBS, Value::NINE),
    ];
    assert_eq!(hand_score(&aces_and_nine), 21);
}

#[test]
fn score_is_best_total_within_21() {
    let soft = vec![c(Suit::SPADES, Value::ACE), c(Suit::HEARTS, Value::FIVE)];
    assert_eq!(hand_score(&soft), 16);
    let hardened = vec![
        c(Suit::SPADES, Value::ACE),
        c(Suit::HEARTS, Value::KING),
        c(Suit::CLUBS, Value::FIVE),
    ];
    assert_eq!(hand_score(&hardened), 16);
    let four_aces = vec![
        c(Suit::SPADES, Value::ACE),
        c(Suit::HEARTS, Value::ACE),
        c(Suit::CLUBS, Value::ACE),
        c(Suit::DIAMONDS, Value::ACE),
    ];
    assert_eq!(hand_score(&four_aces), 14);
}

#[test]
fn hard_total_when_every_choice_busts() {
    let hand = vec![
        c(Suit::SPADES, Value::KING),
        c(Suit::HEARTS, Value::QUEEN),
        c(Suit::CLUBS, Value::ACE),
        c(Suit::DIAMONDS, Value::ACE),
    ];
    assert_eq!(hand_score(&hand), 22);
    assert!(is_bust(&hand));
}

#[test]
fn empty_hand_scores_zero() {
    let hand: Vec<Card> = vec![];
    assert_eq!(hand_score(&hand), 0);
    assert!(!is_bust(&hand));
    assert!(!is_blackjack(&hand));
}

#[test]
fn blackjack_needs_exactly_two_cards() {
    let natural = vec![c(Suit::SPADES, Value::ACE), c(Suit::HEARTS, Value::KING)];
    assert!(is_blackjack(&natural));
    let sevens = vec![
        c(Suit::SPADES, Value::SEVEN),
        c(Suit::HEARTS, Value::SEVEN),
        c(Suit::CLUBS, Value::SEVEN),
    ];
    assert!(!is_blackjack(&sevens));
}

#[test]
fn dealer_stands_on_soft_17() {
    let soft17 = vec![c(Suit::SPADES, Value::ACE), c(Suit::HEARTS, Value::SIX)];
    assert!(!dealer_should_hit(&soft17));
    let sixteen = vec![c(Suit::SPADES, Value::TEN), c(Suit::HEARTS, Value::SIX)];
    assert!(dealer_should_hit(&sixteen));
}

#[test]
fn split_needs_equal_ranks_and_no_earlier_split() {
    let pair = vec![c(Suit::SPADES, Value::EIGHT), c(Suit::HEARTS, Value::EIGHT)];
    assert!(can_split(&pair, SplitContext::NoPreviousSplit));
    assert!(!can_split(&pair, SplitContext::AlreadySplit));
    let faces = vec![c(Suit::SPADES, Value::KING), c(Suit::HEARTS, Value::QUEEN)];
    assert!(!can_split(&faces, SplitContext::NoPreviousSplit));
}

#[test]
fn view_is_stable_after_round_over() {
    let mut game = rigged(vec![
        c(Suit::SPADES, Value::ACE),
        c(Suit::CLUBS, Value::NINE),
        c(Suit::HEARTS, Value::TEN),
        c(Suit::DIAMONDS, Value::SEVEN),
    ]);
    game.start_round();
    let first = format!("{:?}", game.view());
    let second = format!("{:?}", game.view());
    assert_eq!(first, second);
    let events = game.apply(PlayerAction::Hit);
    assert_eq!(
        events,
        vec![BlackjackEvent::ActionIgnored {
            action: PlayerAction::Hit,
            state: BlackjackState::RoundOver,
        }]
    );
    assert_eq!(format!("{:?}", game.view()), first);
}

#[test]
fn split_leaves_two_two_card_hands_and_refuses_a_second_split() {
    let mut game = rigged(vec![
        c(Suit::SPADES, Value::EIGHT),
        c(Suit::CLUBS, Value::TEN),
        c(Suit::HEARTS, Value::EIGHT),
        c(Suit::DIAMONDS, Value::SEVEN),
        c(Suit::CLUBS, Value::EIGHT),
        c(Suit::DIAMONDS, Value::EIGHT),
    ]);
    game.start_round();
    game.apply(PlayerAction::Split);
    let view = game.view();
    assert_eq!(view.player_hands.len(), 2);
    assert_eq!(view.player_hands[0].cards.len(), 2);
    assert_eq!(view.player_hands[1].cards.len(), 2);
    assert_eq!(view.total_bet, 20);
    assert_eq!(view.bank_balance, 1_000 - 20);
    assert!(!view.available_actions.contains(&PlayerAction::Split));

    let events = game.apply(PlayerAction::Split);
    assert_eq!(
        events,
        vec![BlackjackEvent::ActionIgnored {
            action: PlayerAction::Split,
            state: BlackjackState::PlayerTurn { hand_index: 0 },
        }]
    );
    game.apply(PlayerAction::Stay);
    assert_eq!(game.view().phase, BlackjackState::PlayerTurn { hand_index: 1 });
    assert!(!game.view().available_actions.contains(&PlayerAction::Split));
    assert_eq!(game.view().player_hands.len(), 2);
}

#[test]
fn natural_blackjack_resolves_immediately() {
    let mut game = rigged(vec![
        c(Suit::SPADES, Value::ACE),
        c(Suit::CLUBS, Value::NINE),
        c(Suit::HEARTS, Value::TEN),
        c(Suit::DIAMONDS, Value::SEVEN),
    ]);
    let events = game.start_round();
    let view = game.view();
    assert_eq!(view.phase, BlackjackState::RoundOver);
    assert_eq!(view.result, GameResult::PlayerWin);
    assert_eq!(view.bank_balance, 1_000 - 10 + 25);
    assert!(events.contains(&BlackjackEvent::RoundResolved { result: GameResult::PlayerWin }));
}

#[test]
fn double_natural_pushes_and_refunds() {
    let mut game = rigged(vec![
        c(Suit::SPADES, Value::ACE),
        c(Suit::CLUBS, Value::ACE),
        c(Suit::HEARTS, Value::TEN),
        c(Suit::DIAMONDS, Value::KING),
    ]);
    game.start_round();
    let view = game.view();
    assert_eq!(view.result, GameResult::Push);
    assert_eq!(view.bank_balance, 1_000);
}

#[test]
fn dealer_bust_after_stand_pays_double_the_bet() {
    let mut game = rigged(vec![
        c(Suit::SPADES, Value::TEN),
        c(Suit::CLUBS, Value::TEN),
        c(Suit::HEARTS, Value::SIX),
        c(Suit::DIAMONDS, Value::SIX),
        c(Suit::SPADES, Value::SIX),
    ]);
    game.start_round();
    assert_eq!(game.view().player_hands[0].score, 16);
    game.apply(PlayerAction::Stay);
    let view = game.view();
    assert_eq!(view.phase, BlackjackState::RoundOver);
    assert_eq!(view.dealer_visible_score, Some(22));
    assert_eq!(view.result, GameResult::PlayerWin);
    assert_eq!(view.bank_balance, 1_000 - 10 + 20);
}

#[test]
fn insufficient_funds_blocks_double() {
    let mut game = rigged(vec![
        c(Suit::SPADES, Value::FIVE),
        c(Suit::CLUBS, Value::TEN),
        c(Suit::HEARTS, Value::SIX),
        c(Suit::DIAMONDS, Value::SEVEN),
        c(Suit::SPADES, Value::TWO),
    ]);
    game.bank = Bank::new(15);
    game.start_round();
    let before = game.view();
    assert_eq!(before.bank_balance, 5);
    assert_eq!(before.player_hands[0].bet_amount, 10);
    assert!(!before.available_actions.contains(&PlayerAction::Double));
    assert_eq!(before.available_actions, vec![PlayerAction::Hit, PlayerAction::Stay]);

    let events = game.apply(PlayerAction::Double);
    assert_eq!(events.len(), 1);
    let after = game.view();
    assert_eq!(after.bank_balance, 5);
    assert_eq!(after.player_hands[0].bet_amount, 10);
    assert_eq!(after.player_hands[0].cards.len(), 2);
    assert_eq!(after.phase, BlackjackState::PlayerTurn { hand_index: 0 });
}

#[test]
fn round_start_without_funds_deals_nothing() {
    let mut game = Blackjack::new();
    game.bank = Bank::new(5);
    let events = game.start_round();
    assert!(events.is_empty());
    let view = game.view();
    assert_eq!(view.phase, BlackjackState::Dealing);
    assert_eq!(view.bank_balance, 5);
    assert!(view.player_hands[0].cards.is_empty());
    assert!(view.dealer_cards.is_empty());
    assert_eq!(view.dealer_visible_score, None);
    assert!(view.available_actions.is_empty());
}

#[test]
fn hole_card_is_hidden_during_player_turn() {
    let mut game = rigged(vec![
        c(Suit::SPADES, Value::FIVE),
        c(Suit::CLUBS, Value::TEN),
        c(Suit::HEARTS, Value::SIX),
        c(Suit::DIAMONDS, Value::SEVEN),
    ]);
    game.start_round();
    let view = game.view();
    assert!(view.dealer_has_hidden_card);
    assert!(matches!(view.dealer_cards[0], card_games::view::VisibleCard::FaceDown));
    assert_eq!(view.dealer_visible_score, Some(7));
    assert_eq!(view.available_actions, vec![PlayerAction::Double, PlayerAction::Hit, PlayerAction::Stay]);
    assert!(view.can_hit && view.can_stay && !view.can_start_new_round);

    game.apply(PlayerAction::Stay);
    let view = game.view();
    assert!(!view.dealer_has_hidden_card);
    assert_eq!(view.dealer_visible_score, Some(17));
    assert_eq!(view.result, GameResult::DealerWin);
    assert!(view.can_start_new_round);
    assert_eq!(view.bank_balance, 990);
}

#[test]
fn player_bust_loses_and_dealer_still_draws() {
    let mut game = rigged(vec![
        c(Suit::SPADES, Value::TEN),
        c(Suit::CLUBS, Value::TEN),
        c(Suit::HEARTS, Value::SIX),
        c(Suit::DIAMONDS, Value::TWO),
        c(Suit::SPADES, Value::KING),
        c(Suit::HEARTS, Value::FIVE),
    ]);
    game.start_round();
    game.apply(PlayerAction::Hit);
    let view = game.view();
    assert_eq!(view.phase, BlackjackState::RoundOver);
    assert_eq!(view.result, GameResult::DealerWin);
    assert_eq!(view.player_hands[0].score, 26);
    assert_eq!(view.dealer_visible_score, Some(17));
    assert_eq!(game.shoe.remaining(), 0);
}

#[test]
fn new_round_reshuffles_a_short_shoe() {
    let mut game = rigged(vec![
        c(Suit::SPADES, Value::ACE),
        c(Suit::CLUBS, Value::NINE),
        c(Suit::HEARTS, Value::TEN),
        c(Suit::DIAMONDS, Value::SEVEN),
    ]);
    game.start_round();
    assert!(game.needs_shuffle());
    let events = game.request_new_round();
    assert_eq!(events[0], BlackjackEvent::RoundStarted);
    assert_eq!(game.shoe.remaining(), 48);
}

#[test]
fn new_shuffled_shoe_holds_the_standard_deck() {
    let mut shoe = Shoe::new_shuffled();
    assert_eq!(shoe.remaining(), 52);
    let mut seen = Vec::new();
    while shoe.remaining() > 0 {
        let card = shoe.draw();
        assert!(!card.is_joker());
        assert!(!seen.contains(&card));
        seen.push(card);
    }
    assert_eq!(seen.len(), 52);
}

#[test]
fn deal_alternates_player_and_dealer() {
    let mut game = rigged(vec![
        c(Suit::SPADES, Value::TWO),
        c(Suit::CLUBS, Value::THREE),
        c(Suit::HEARTS, Value::FOUR),
        c(Suit::DIAMONDS, Value::FIVE),
    ]);
    game.start_round();
    assert_eq!(
        game.table.player_hands[0].hand.cards(),
        &[c(Suit::SPADES, Value::TWO), c(Suit::HEARTS, Value::FOUR)][..]
    );
    assert_eq!(
        game.table.dealer_hand.cards(),
        &[c(Suit::CLUBS, Value::THREE), c(Suit::DIAMONDS, Value::FIVE)][..]
    );
}
