//! The round state machine: deals, applies the player's actions, plays the
//! dealer's turn and settles the bets.
use vstd::prelude::*;
use crate::bank::Bank;
use crate::card::Card;
use crate::deck_builder::standard_deck;
use crate::hand::{Hand, copy_cards};
use crate::round::{
    RoundModel, Step, active_index, advance, run_engine, check_naturals, deal, dealer_can_finish,
    dealer_draws, goto, hand_ok, lemma_hard_nonneg, lemma_next_turn,
    lemma_payout_bound, lemma_push_totals, lemma_two_cards, next_turn, resolve, resolve_with,
    round_result, settle, some_outcome, split_context_of, start, total_payout, wf, action_allowed,
    apply_ready, apply_step, cards_needed, player_move, lemma_tail_hard_total,
    lemma_next_turn_ignores_earlier,
};
use crate::rules::{
    SplitContext, can_double, can_split, dealer_should_hit, hand_score, hard_total, is_blackjack,
    is_bust,
};
use crate::view::{
    BlackjackView, PlayerHandView, VisibleCard, cards_after_first, face_up_cards,
    hand_view, legal_actions, total_bets, view_of,
};
use crate::types::{
    BlackjackEvent, BlackjackState, DEFAULT_BET, GameResult, HandModel, MAX_BALANCE, PlayerAction, PlayerHand,
    RESHUFFLE_THRESHOLD, STARTING_BALANCE, Shoe, Table, hand_outcome,
};

verus! {

/// A Blackjack table: the shoe, the hands, the bank, the round's state
/// and its result.
pub struct Blackjack {
    pub state: BlackjackState,
    pub shoe: Shoe,
    pub table: Table,
    pub bank: Bank,
    pub result: GameResult,
}

/// Whether the dealer, drawing from `shoe` starting at index `from`,
/// reaches 17 before the shoe runs out.
pub fn dealer_finishes(dealer: &[Card], shoe: &[Card], from: usize) -> (r: bool)
    requires
        hard_total(dealer@) <= 26,
        from <= shoe@.len(),
    ensures
        r == dealer_can_finish(dealer@, shoe@.skip(from as int)),
{
    let mut cards = copy_cards(dealer);
    let mut i: usize = from;
    while dealer_should_hit(cards.as_slice())
        invariant
            from <= i <= shoe@.len(),
            hard_total(cards@) <= 26,
            dealer_can_finish(cards@, shoe@.skip(i as int)) == dealer_can_finish(
                dealer@,
                shoe@.skip(from as int),
            ),
        decreases shoe@.len() - i,
    {
        if i >= shoe.len() {
            return false;
        }
        proof {
            lemma_hard_nonneg(cards@);
            lemma_push_totals(cards@, shoe@[i as int]);
            assert(shoe@.skip(i as int).drop_first() =~= shoe@.skip(i + 1));
            assert(shoe@.skip(i as int)[0] == shoe@[i as int]);
        }
        cards.push(shoe[i]);
        i = i + 1;
    }
    true
}

/// The round `start` begins from `m` once the shoe is `shoe`.
pub open spec fn restart_with(m: RoundModel, shoe: Seq<Card>) -> Step {
    start(RoundModel { shoe, ..m })
}

/// The shoe after a request for a new round: the same shoe while it holds
/// enough cards, else a fresh shuffle of the standard deck.
pub open spec fn shoe_for_next_round(old_shoe: Seq<Card>, new_shoe: Seq<Card>) -> bool {
    if old_shoe.len() < RESHUFFLE_THRESHOLD {
        new_shoe.len() == 52 && new_shoe.to_multiset() == standard_deck().to_multiset()
    } else {
        new_shoe == old_shoe
    }
}

impl Blackjack {
    /// The round this table is playing.
    pub open spec fn model(&self) -> RoundModel {
        RoundModel {
            state: self.state,
            shoe: self.shoe@,
            hands: self.table.player_hands@.map_values(|h: PlayerHand| h@),
            dealer: self.table.dealer_hand@,
            balance: self.bank@,
            result: self.result,
        }
    }

    pub open spec fn step(&self, events: Seq<BlackjackEvent>) -> Step {
        Step { round: self.model(), events }
    }

    /// A table with a freshly shuffled shoe, one open hand with the default
    /// bet, the starting balance, waiting to deal.
    pub fn new() -> (r: Self)
        ensures
            r.model().state == BlackjackState::Dealing,
            r.model().shoe.len() == 52,
            r.model().shoe.to_multiset() == standard_deck().to_multiset(),
            r.model().hands == seq![HandModel { cards: Seq::empty(), bet: DEFAULT_BET, complete: false }],
            r.model().dealer == Seq::<Card>::empty(),
            r.model().balance == STARTING_BALANCE,
            r.model().result == GameResult::Pending,
            wf(r.model()),
    {
        let mut hands: Vec<PlayerHand> = Vec::new();
        hands.push(PlayerHand::new(DEFAULT_BET));
        let r = Blackjack {
            state: BlackjackState::Dealing,
            shoe: Shoe::new_shuffled(),
            table: Table { player_hands: hands, dealer_hand: Hand::new() },
            bank: Bank::new(STARTING_BALANCE),
            result: GameResult::Pending,
        };
        assert(r.model().hands =~= seq![HandModel { cards: Seq::empty(), bet: DEFAULT_BET, complete: false }]);
        r
    }

    fn transition_to(&mut self, next: BlackjackState, events: &mut Vec<BlackjackEvent>)
        ensures
            final(self).step(final(events)@) == goto(old(self).step(old(events)@), next),
            final(self).table == old(self).table,
            final(self).shoe == old(self).shoe,
            final(self).bank == old(self).bank,
    {
        let previous = self.state;
        self.state = next;
        if previous != next {
            events.push(BlackjackEvent::StateChanged { from: previous, to: next });
        }
    }

    fn set_result(&mut self, result: GameResult, events: &mut Vec<BlackjackEvent>)
        ensures
            final(self).step(final(events)@) == resolve_with(old(self).step(old(events)@), result),
            final(self).table == old(self).table,
            final(self).shoe == old(self).shoe,
            final(self).bank == old(self).bank,
            final(self).state == old(self).state,
    {
        self.result = result;
        if result != GameResult::Pending {
            events.push(BlackjackEvent::RoundResolved { result });
        }
    }

    fn current_hand_idx(&self) -> (r: usize)
        ensures
            r as int == active_index(self.state),
    {
        match self.state {
            BlackjackState::PlayerTurn { hand_index } => hand_index,
            _ => 0,
        }
    }

    fn split_context(&self) -> (r: SplitContext)
        ensures
            r == split_context_of(self.model().hands),
    {
        if self.table.player_hands.len() > 1 {
            SplitContext::AlreadySplit
        } else {
            SplitContext::NoPreviousSplit
        }
    }

    /// The shoe has fallen below the reshuffle threshold.
    pub fn needs_shuffle(&self) -> (r: bool)
        ensures
            r == (self.shoe@.len() < RESHUFFLE_THRESHOLD),
    {
        self.shoe.remaining() < RESHUFFLE_THRESHOLD
    }

    /// Replaces the shoe with a freshly shuffled standard deck.
    pub fn shuffle_shoe(&mut self)
        ensures
            final(self).shoe@.len() == 52,
            final(self).shoe@.to_multiset() == standard_deck().to_multiset(),
            final(self).model() == (RoundModel { shoe: final(self).shoe@, ..old(self).model() }),
    {
        self.shoe = Shoe::new_shuffled();
    }

    /// Moves past hand `idx`: to the lowest-indexed open hand after it, else
    /// to the dealer's turn.
    fn advance_player_turn_or_dealer(&mut self, idx: usize, events: &mut Vec<BlackjackEvent>)
        requires
            idx < old(self).table.player_hands@.len(),
        ensures
            final(self).step(final(events)@) == advance(old(self).step(old(events)@), idx as int),
            final(self).table == old(self).table,
            final(self).shoe == old(self).shoe,
            final(self).bank == old(self).bank,
    {
        let ghost hands = self.model().hands;
        let n = self.table.player_hands.len();
        let mut j: usize = idx + 1;
        while j < self.table.player_hands.len()
            invariant
                idx + 1 <= j <= self.table.player_hands@.len(),
                hands == self.model().hands,
                next_turn(hands, (idx + 1) as nat) == next_turn(hands, j as nat),
                self.step(events@) == old(self).step(old(events)@),
                self.table == old(self).table,
                self.shoe == old(self).shoe,
                self.bank == old(self).bank,
            decreases self.table.player_hands@.len() - j,
        {
            if !self.table.player_hands[j].is_complete {
                assert(!hands[j as int].complete);
                self.transition_to(BlackjackState::PlayerTurn { hand_index: j }, events);
                return;
            }
            assert(hands[j as int].complete);
            j = j + 1;
        }
        self.transition_to(BlackjackState::DealerTurn, events);
    }

    /// Deals alternately (player, dealer, player, dealer) and resolves
    /// naturals.
    fn deal_initial_cards(&mut self, events: &mut Vec<BlackjackEvent>)
        requires
            wf(old(self).model()),
            old(self).state == BlackjackState::Dealing,
            old(self).shoe@.len() >= 4,
        ensures
            final(self).step(final(events)@) == deal(old(self).step(old(events)@)),
            wf(final(self).model()),
    {
        let ghost s0 = self.step(events@);
        let c1 = self.shoe.draw();
        self.table.player_hands[0].hand.add(c1);
        let d1 = self.shoe.draw();
        self.table.dealer_hand.add(d1);
        let c2 = self.shoe.draw();
        self.table.player_hands[0].hand.add(c2);
        let d2 = self.shoe.draw();
        self.table.dealer_hand.add(d2);
        proof {
            let r = s0.round;
            let h0 = r.hands[0];
            assert(c1 == r.shoe[0]);
            assert(d1 == r.shoe[1]);
            assert(c2 == r.shoe[2]);
            assert(d2 == r.shoe[3]);
            assert(self.model().hands[0].cards =~= h0.cards + seq![r.shoe[0], r.shoe[2]]);
            assert(self.model().hands[0] == HandModel { cards: h0.cards + seq![r.shoe[0], r.shoe[2]], ..h0 });
            assert(self.model().hands =~= r.hands.update(
                0,
                HandModel { cards: h0.cards + seq![r.shoe[0], r.shoe[2]], ..h0 },
            ));
            assert(self.model().dealer =~= r.dealer + seq![r.shoe[1], r.shoe[3]]);
            assert(self.model().shoe =~= r.shoe.skip(4));
            lemma_two_cards(self.model().hands[0].cards);
            lemma_two_cards(self.model().dealer);
        }
        self.resolve_blackjack_or_continue(events);
    }

    /// Right after the deal: both naturals push (the bet is returned), a
    /// player natural pays 3:2, a dealer natural wins; otherwise the player
    /// plays the first hand.
    fn resolve_blackjack_or_continue(&mut self, events: &mut Vec<BlackjackEvent>)
        requires
            old(self).model().hands.len() == 1,
            hand_ok(old(self).model().hands[0]),
            old(self).model().hands[0].cards.len() == 2,
            !old(self).model().hands[0].complete,
            hard_total(old(self).model().dealer) <= 26,
            old(self).model().balance <= MAX_BALANCE,
        ensures
            final(self).step(final(events)@) == check_naturals(old(self).step(old(events)@)),
            wf(final(self).model()),
    {
        let player_blackjack = is_blackjack(self.table.player_hands[0].hand.cards());
        let dealer_blackjack = is_blackjack(self.table.dealer_hand.cards());
        let bet = self.table.player_hands[0].bet.amount;
        if player_blackjack && dealer_blackjack {
            self.bank.deposit(bet);
            self.set_result(GameResult::Push, events);
            self.transition_to(BlackjackState::RoundOver, events);
        } else if player_blackjack {
            let payout = bet + bet * 3 / 2;
            self.bank.deposit(payout);
            self.set_result(GameResult::PlayerWin, events);
            self.transition_to(BlackjackState::RoundOver, events);
        } else if dealer_blackjack {
            self.set_result(GameResult::DealerWin, events);
            self.transition_to(BlackjackState::RoundOver, events);
        } else {
            self.transition_to(BlackjackState::PlayerTurn { hand_index: 0 }, events);
        }
    }

    fn is_engine_driven(&self) -> (r: bool)
        ensures
            r == (self.state == BlackjackState::Dealing || self.state == BlackjackState::DealerTurn),
    {
        match self.state {
            BlackjackState::Dealing | BlackjackState::DealerTurn => true,
            _ => false,
        }
    }

    /// Runs the engine-driven states (dealing, the dealer's turn) until the
    /// round waits for the player or is over.
    fn advance_automatic_transitions(&mut self, events: &mut Vec<BlackjackEvent>)
        requires
            wf(old(self).model()),
            old(self).state == BlackjackState::Dealing ==> old(self).shoe@.len() >= 4,
            old(self).state == BlackjackState::DealerTurn ==> dealer_can_finish(
                old(self).model().dealer,
                old(self).model().shoe,
            ),
        ensures
            final(self).step(final(events)@) == run_engine(old(self).step(old(events)@)),
            wf(final(self).model()),
    {
        let ghost s0 = self.step(events@);
        while self.is_engine_driven()
            invariant
                wf(self.model()),
                self.state == BlackjackState::Dealing ==> self.shoe@.len() >= 4 && self.step(events@)
                    == s0,
                self.state == BlackjackState::DealerTurn ==> dealer_can_finish(
                    self.model().dealer,
                    self.model().shoe,
                ) && self.step(events@) == s0,
                !(self.state == BlackjackState::Dealing || self.state == BlackjackState::DealerTurn)
                    ==> self.step(events@) == run_engine(s0),
            decreases
                match self.state {
                    BlackjackState::Dealing => 2int,
                    BlackjackState::DealerTurn => 1int,
                    _ => 0int,
                },
        {
            match self.state {
                BlackjackState::Dealing => self.deal_initial_cards(events),
                BlackjackState::DealerTurn => self.play_dealer(events),
                _ => {},
            }
        }
        assert(self.step(events@) == run_engine(s0));
    }

    /// Starts a new round: one open hand with the default bet, the dealer's
    /// hand cleared, the bet withdrawn, then the deal. When the bank cannot
    /// cover the bet the round stays in `Dealing` with no cards dealt.
    pub fn start_round(&mut self) -> (r: Vec<BlackjackEvent>)
        requires
            old(self).bank@ <= MAX_BALANCE,
            old(self).bank@ >= DEFAULT_BET ==> old(self).shoe@.len() >= 4,
        ensures
            final(self).step(r@) == start(old(self).model()),
            wf(final(self).model()),
    {
        let mut events: Vec<BlackjackEvent> = Vec::new();
        let mut hands: Vec<PlayerHand> = Vec::new();
        hands.push(PlayerHand::new(DEFAULT_BET));
        self.table.player_hands = hands;
        self.table.dealer_hand.clear_hand();
        self.result = GameResult::Pending;
        assert(self.model().hands =~= seq![HandModel { cards: Seq::empty(), bet: DEFAULT_BET, complete: false }]);
        self.transition_to(BlackjackState::Dealing, &mut events);
        let bet = self.table.player_hands[0].bet.amount;
        if !self.bank.withdraw(bet) {
            return events;
        }
        self.advance_automatic_transitions(&mut events);
        events
    }

    /// The dealer draws while below 17, then the round is settled.
    fn play_dealer(&mut self, events: &mut Vec<BlackjackEvent>)
        requires
            wf(old(self).model()),
            old(self).state == BlackjackState::DealerTurn,
            dealer_can_finish(old(self).model().dealer, old(self).model().shoe),
        ensures
            final(self).step(final(events)@) == settle(old(self).step(old(events)@)),
            wf(final(self).model()),
    {
        let ghost s0 = self.step(events@);
        let ghost target = dealer_draws(s0.round.dealer, s0.round.shoe);
        while dealer_should_hit(self.table.dealer_hand.cards())
            invariant
                dealer_draws(self.model().dealer, self.model().shoe) == target,
                dealer_can_finish(self.model().dealer, self.model().shoe),
                hard_total(self.model().dealer) <= 26,
                self.model() == (RoundModel {
                    dealer: self.model().dealer,
                    shoe: self.model().shoe,
                    ..s0.round
                }),
                events@ == s0.events,
            decreases self.shoe@.len(),
        {
            proof {
                lemma_hard_nonneg(self.model().dealer);
                lemma_push_totals(self.model().dealer, self.model().shoe[0]);
            }
            let card = self.shoe.draw();
            self.table.dealer_hand.add(card);
        }
        self.resolve_round(events);
    }

    /// Settles every hand against the dealer, pays winners and pushes, and
    /// ends the round with the combined result.
    fn resolve_round(&mut self, events: &mut Vec<BlackjackEvent>)
        requires
            1 <= old(self).model().hands.len() <= 2,
            forall|i: int|
                0 <= i < old(self).model().hands.len() ==> hand_ok(#[trigger] old(self).model().hands[i]),
            hard_total(old(self).model().dealer) <= 26,
            old(self).model().balance <= MAX_BALANCE,
        ensures
            final(self).step(final(events)@) == resolve(old(self).step(old(events)@)),
            wf(final(self).model()),
    {
        let ghost hands = self.model().hands;
        let ghost dealer = self.model().dealer;
        let ghost m0 = self.model();
        let dealer_score = hand_score(self.table.dealer_hand.cards());
        let dealer_bust = is_bust(self.table.dealer_hand.cards());
        let mut any_win = false;
        let mut any_push = false;
        let mut any_loss = false;
        let n = self.table.player_hands.len();
        let mut i: usize = 0;
        while i < n
            invariant
                n == hands.len(),
                1 <= n <= 2,
                i <= n,
                hands == m0.hands,
                dealer == m0.dealer,
                forall|k: int| 0 <= k < hands.len() ==> hand_ok(#[trigger] hands[k]),
                hard_total(dealer) <= 26,
                dealer_score as int == crate::rules::score(dealer),
                dealer_bust == crate::rules::bust(dealer),
                m0.balance <= MAX_BALANCE,
                self.model() == (RoundModel {
                    balance: m0.balance + total_payout(hands.subrange(0, i as int), dealer),
                    ..m0
                }),
                total_payout(hands.subrange(0, i as int), dealer) <= 40 * i,
                any_win == some_outcome(hands, dealer, GameResult::PlayerWin, i as int),
                any_push == some_outcome(hands, dealer, GameResult::Push, i as int),
                any_loss == some_outcome(hands, dealer, GameResult::DealerWin, i as int),
                events@ == old(events)@,
            decreases n - i,
        {
            let bet = self.table.player_hands[i].bet.amount;
            proof {
                assert(hand_ok(hands[i as int]));
                let next = hands.subrange(0, i + 1);
                assert(next.drop_last() == hands.subrange(0, i as int));
                assert forall|k: int| 0 <= k < next.len() implies hand_ok(#[trigger] next[k]) by {
                    assert(next[k] == hands[k]);
                }
                lemma_payout_bound(next, dealer);
            }
            let player_score = hand_score(self.table.player_hands[i].hand.cards());
            let player_bust = is_bust(self.table.player_hands[i].hand.cards());
            let result = if player_bust {
                GameResult::DealerWin
            } else if dealer_bust {
                GameResult::PlayerWin
            } else {
                GameResult::determine(player_score, dealer_score)
            };
            assert(result == hand_outcome(hands[i as int].cards, dealer));
            match result {
                GameResult::PlayerWin => {
                    self.bank.deposit(bet * 2);
                    any_win = true;
                },
                GameResult::Push => {
                    self.bank.deposit(bet);
                    any_push = true;
                },
                GameResult::DealerWin => {
                    any_loss = true;
                },
                GameResult::Pending => {},
            }
            proof {
                assert forall|r: GameResult|
                    some_outcome(hands, dealer, r, i + 1) == (some_outcome(hands, dealer, r, i as int)
                        || hand_outcome(hands[i as int].cards, dealer) == r) by {
                    if some_outcome(hands, dealer, r, i + 1) && hand_outcome(hands[i as int].cards, dealer) != r {
                        let j = choose|j: int| 0 <= j < i + 1 && #[trigger] hand_outcome(hands[j].cards, dealer) == r;
                        assert(j < i);
                    }
                }
            }
            i = i + 1;
        }
        assert(hands.subrange(0, n as int) == hands);
        let result = if any_win && !any_loss && !any_push {
            GameResult::PlayerWin
        } else if any_loss && !any_win && !any_push {
            GameResult::DealerWin
        } else if any_win || any_loss || any_push {
            GameResult::Push
        } else {
            GameResult::Pending
        };
        proof {
            let w = GameResult::PlayerWin;
            let l = GameResult::DealerWin;
            let p = GameResult::Push;
            assert forall|j: int| 0 <= j < n implies {
                let o = #[trigger] hand_outcome(hands[j].cards, dealer);
                o == w || o == l || o == p
            } by {}
            assert(hand_outcome(hands[0].cards, dealer) == w || hand_outcome(hands[0].cards, dealer) == l
                || hand_outcome(hands[0].cards, dealer) == p);
            if any_win && !any_loss && !any_push {
                assert forall|j: int| 0 <= j < n implies #[trigger] hand_outcome(hands[j].cards, dealer) == w by {
                    let o = hand_outcome(hands[j].cards, dealer);
                    assert(o == w || o == l || o == p);
                }
            } else if any_loss && !any_win && !any_push {
                assert forall|j: int| 0 <= j < n implies #[trigger] hand_outcome(hands[j].cards, dealer) == l by {
                    let o = hand_outcome(hands[j].cards, dealer);
                    assert(o == w || o == l || o == p);
                }
                assert(hand_outcome(hands[0].cards, dealer) != w);
            } else {
                if any_win {
                    let j = choose|j: int| 0 <= j < n && #[trigger] hand_outcome(hands[j].cards, dealer) == w;
                    assert(hand_outcome(hands[j].cards, dealer) != l);
                } else {
                    assert(hand_outcome(hands[0].cards, dealer) != w);
                }
                if any_loss {
                    let j = choose|j: int| 0 <= j < n && #[trigger] hand_outcome(hands[j].cards, dealer) == l;
                    assert(hand_outcome(hands[j].cards, dealer) != w);
                } else if any_push {
                    let j = choose|j: int| 0 <= j < n && #[trigger] hand_outcome(hands[j].cards, dealer) == p;
                    assert(hand_outcome(hands[j].cards, dealer) != w);
                    assert(hand_outcome(hands[j].cards, dealer) != l);
                } else {
                    assert(hand_outcome(hands[0].cards, dealer) != l);
                }
            }
            assert(result == round_result(hands, dealer));
        }
        self.set_result(result, events);
        self.transition_to(BlackjackState::RoundOver, events);
    }

    /// Carries out `action` on hand `idx` when it is allowed; returns
    /// whether it was.
    fn handle_player_turn(
        &mut self,
        idx: usize,
        action: PlayerAction,
        events: &mut Vec<BlackjackEvent>,
    ) -> (r: bool)
        requires
            wf(old(self).model()),
            old(self).state == (BlackjackState::PlayerTurn { hand_index: idx }),
            action_allowed(old(self).model(), action) ==> old(self).shoe@.len() >= cards_needed(
                action,
            ),
        ensures
            r == action_allowed(old(self).model(), action),
            r ==> final(self).step(final(events)@) == player_move(
                old(self).step(old(events)@),
                idx as int,
                action,
            ),
            r ==> wf(final(self).model()),
            !r ==> *final(self) == *old(self) && final(events)@ == old(events)@,
    {
        let ghost m0 = self.model();
        let ghost h = m0.hands[idx as int];
        proof {
            assert(hand_ok(h));
            lemma_hard_nonneg(h.cards);
            lemma_next_turn(m0.hands, (idx + 1) as nat);
        }
        match action {
            PlayerAction::Hit => {
                let card = self.shoe.draw();
                self.table.player_hands[idx].hand.add(card);
                proof {
                    lemma_push_totals(h.cards, card);
                    lemma_hard_nonneg(h.cards.push(card));
                }
                if is_bust(self.table.player_hands[idx].hand.cards()) {
                    self.table.player_hands[idx].is_complete = true;
                    proof {
                        assert(self.model().hands =~= m0.hands.update(
                            idx as int,
                            HandModel { cards: h.cards.push(card), complete: true, ..h },
                        ));
                        lemma_next_turn(self.model().hands, (idx + 1) as nat);
                        assert forall|k: int|
                            0 <= k < self.model().hands.len() implies hand_ok(
                            #[trigger] self.model().hands[k],
                        ) by {
                            if k != idx {
                                assert(self.model().hands[k] == m0.hands[k]);
                            }
                        }
                    }
                    self.advance_player_turn_or_dealer(idx, events);
                } else {
                    proof {
                        assert(self.model().hands =~= m0.hands.update(
                            idx as int,
                            HandModel { cards: h.cards.push(card), ..h },
                        ));
                        assert forall|k: int|
                            0 <= k < self.model().hands.len() implies hand_ok(
                            #[trigger] self.model().hands[k],
                        ) by {
                            if k != idx {
                                assert(self.model().hands[k] == m0.hands[k]);
                            }
                        }
                    }
                }
                true
            },
            PlayerAction::Stay => {
                self.table.player_hands[idx].is_complete = true;
                proof {
                    assert(self.model().hands =~= m0.hands.update(
                        idx as int,
                        HandModel { complete: true, ..h },
                    ));
                    lemma_next_turn(self.model().hands, (idx + 1) as nat);
                    assert forall|k: int|
                        0 <= k < self.model().hands.len() implies hand_ok(
                        #[trigger] self.model().hands[k],
                    ) by {
                        if k != idx {
                            assert(self.model().hands[k] == m0.hands[k]);
                        }
                    }
                }
                self.advance_player_turn_or_dealer(idx, events);
                true
            },
            PlayerAction::Double => {
                if !can_double(&self.table.player_hands[idx]) {
                    return false;
                }
                let bet = self.table.player_hands[idx].bet.amount;
                if !self.bank.withdraw(bet) {
                    return false;
                }
                self.table.player_hands[idx].bet.amount = bet * 2;
                let card = self.shoe.draw();
                self.table.player_hands[idx].hand.add(card);
                self.table.player_hands[idx].is_complete = true;
                proof {
                    lemma_two_cards(h.cards);
                    lemma_push_totals(h.cards, card);
                    assert(self.model().hands =~= m0.hands.update(
                        idx as int,
                        HandModel { cards: h.cards.push(card), bet: (2 * h.bet) as u32, complete: true },
                    ));
                    lemma_next_turn(self.model().hands, (idx + 1) as nat);
                    assert forall|k: int|
                        0 <= k < self.model().hands.len() implies hand_ok(
                        #[trigger] self.model().hands[k],
                    ) by {
                        if k != idx {
                            assert(self.model().hands[k] == m0.hands[k]);
                        }
                    }
                }
                self.advance_player_turn_or_dealer(idx, events);
                true
            },
            PlayerAction::Split => {
                let split_context = self.split_context();
                if !can_split(self.table.player_hands[idx].hand.cards(), split_context) {
                    return false;
                }
                if self.bank.balance() < self.table.player_hands[idx].bet.amount {
                    return false;
                }
                let bet = self.table.player_hands[idx].bet.amount;
                if !self.bank.withdraw(bet) {
                    return false;
                }
                let c0 = self.table.player_hands[idx].hand.cards()[0];
                let c1 = self.table.player_hands[idx].hand.cards()[1];
                let new1 = self.shoe.draw();
                let new2 = self.shoe.draw();
                self.table.player_hands[idx].hand.clear_hand();
                self.table.player_hands[idx].hand.add(c0);
                self.table.player_hands[idx].hand.add(new1);
                let mut split_hand = PlayerHand::new(bet);
                split_hand.hand.add(c1);
                split_hand.hand.add(new2);
                self.table.player_hands.push(split_hand);
                proof {
                    let first = HandModel { cards: seq![h.cards[0], m0.shoe[0]], ..h };
                    let second = HandModel { cards: seq![h.cards[1], m0.shoe[1]], bet: h.bet, complete: false };
                    assert(self.model().hands[idx as int].cards =~= first.cards);
                    assert(self.model().hands[1].cards =~= second.cards);
                    assert(self.model().hands =~= m0.hands.update(idx as int, first).push(second));
                    assert(self.model().shoe =~= m0.shoe.skip(2));
                    lemma_two_cards(first.cards);
                    lemma_two_cards(second.cards);
                    assert forall|k: int|
                        0 <= k < self.model().hands.len() implies hand_ok(
                        #[trigger] self.model().hands[k],
                    ) by {
                        if k == 0 {
                            assert(self.model().hands[k] == first);
                        } else {
                            assert(self.model().hands[k] == second);
                        }
                    }
                }
                self.transition_to(BlackjackState::PlayerTurn { hand_index: 0 }, events);
                true
            },
        }
    }

    /// Applies one player action. Outside the player's turn, and for a
    /// Double or Split that is not allowed, the action is ignored: nothing
    /// changes and a single `ActionIgnored` event is returned.
    pub fn apply(&mut self, action: PlayerAction) -> (r: Vec<BlackjackEvent>)
        requires
            wf(old(self).model()),
            apply_ready(old(self).model(), action),
        ensures
            final(self).step(r@) == apply_step(old(self).model(), action),
            wf(final(self).model()),
    {
        let mut events: Vec<BlackjackEvent> = Vec::new();
        let snapshot = self.state;
        match snapshot {
            BlackjackState::PlayerTurn { hand_index } => {
                let handled = self.handle_player_turn(hand_index, action, &mut events);
                if !handled {
                    events.push(BlackjackEvent::ActionIgnored { action, state: snapshot });
                    assert(events@ =~= seq![BlackjackEvent::ActionIgnored { action, state: snapshot }]);
                    return events;
                }
                let ghost moved = events@;
                events.insert(0, BlackjackEvent::ActionApplied { action });
                assert(events@ =~= seq![BlackjackEvent::ActionApplied { action }] + moved);
                self.advance_automatic_transitions(&mut events);
                events
            },
            _ => {
                events.push(BlackjackEvent::ActionIgnored { action, state: snapshot });
                assert(events@ =~= seq![BlackjackEvent::ActionIgnored { action, state: snapshot }]);
                events
            },
        }
    }

    /// From `RoundOver`: replaces a shoe that fell below the threshold,
    /// then starts a new round, reporting `RoundStarted` first. In any other
    /// state the request is ignored.
    pub fn request_new_round(&mut self) -> (r: Vec<BlackjackEvent>)
        requires
            wf(old(self).model()),
            old(self).state == BlackjackState::RoundOver ==> old(self).bank@ <= MAX_BALANCE,
        ensures
            old(self).state != BlackjackState::RoundOver ==> *final(self) == *old(self) && r@ == seq![
                BlackjackEvent::RoundStartIgnored { state: old(self).state },
            ],
            old(self).state == BlackjackState::RoundOver ==> exists|shoe: Seq<Card>|
                shoe_for_next_round(old(self).shoe@, shoe) && final(self).model() == (#[trigger] restart_with(
                    old(self).model(),
                    shoe,
                )).round && r@ == seq![BlackjackEvent::RoundStarted] + restart_with(
                    old(self).model(),
                    shoe,
                ).events,
            wf(final(self).model()),
    {
        if self.state != BlackjackState::RoundOver {
            let mut ignored: Vec<BlackjackEvent> = Vec::new();
            ignored.push(BlackjackEvent::RoundStartIgnored { state: self.state });
            assert(ignored@ =~= seq![BlackjackEvent::RoundStartIgnored { state: self.state }]);
            return ignored;
        }
        let ghost m0 = self.model();
        if self.needs_shuffle() {
            self.shuffle_shoe();
        }
        let ghost shoe = self.shoe@;
        assert(self.model() == (RoundModel { shoe, ..m0 }));
        let mut events: Vec<BlackjackEvent> = Vec::new();
        events.push(BlackjackEvent::RoundStarted);
        let mut started = self.start_round();
        let ghost started_events = started@;
        events.append(&mut started);
        assert(events@ =~= seq![BlackjackEvent::RoundStarted] + started_events);
        assert(shoe_for_next_round(m0.shoe, shoe));
        assert(self.model() == restart_with(m0, shoe).round && events@ == seq![
            BlackjackEvent::RoundStarted,
        ] + restart_with(m0, shoe).events);
        events
    }

    /// The actions the player may take now: Split and Double when the hand
    /// and the bank allow them, then Hit and Stay; none outside the
    /// player's turn.
    fn available_actions(&self) -> (r: Vec<PlayerAction>)
        requires
            wf(self.model()),
        ensures
            r@ == legal_actions(self.model()),
    {
        let mut controls: Vec<PlayerAction> = Vec::new();
        match self.state {
            BlackjackState::PlayerTurn { .. } => {
                let idx = self.current_hand_idx();
                let hand = &self.table.player_hands[idx];
                if can_split(hand.hand.cards(), self.split_context()) && self.bank.balance()
                    >= hand.bet.amount {
                    controls.push(PlayerAction::Split);
                }
                if can_double(hand) && self.bank.balance() >= hand.bet.amount {
                    controls.push(PlayerAction::Double);
                }
                controls.push(PlayerAction::Hit);
                controls.push(PlayerAction::Stay);
                assert(controls@ =~= legal_actions(self.model()));
            },
            _ => {},
        }
        controls
    }

    /// The snapshot of the round: every player hand face up with its score,
    /// the dealer's hole card face down (and left out of the shown score)
    /// while cards are dealt and the player decides, the legal actions, the
    /// balance, the total bet and the result.
    pub fn view(&self) -> (r: BlackjackView)
        requires
            wf(self.model()),
        ensures
            r@ == view_of(self.model()),
    {
        let ghost m = self.model();
        let active_hand_index = self.current_hand_idx();
        let mut player_hands: Vec<PlayerHandView> = Vec::new();
        let mut total_bet: u32 = 0;
        let n = self.table.player_hands.len();
        let mut i: usize = 0;
        while i < n
            invariant
                n == m.hands.len(),
                i <= n,
                m == self.model(),
                wf(m),
                player_hands@.len() == i,
                player_hands@.map_values(|h: PlayerHandView| h@) == m.hands.subrange(0, i as int).map_values(
                    |h: HandModel| hand_view(h),
                ),
                total_bet as nat == total_bets(m.hands.subrange(0, i as int)),
                total_bet <= 20 * i,
            decreases n - i,
        {
            let h = &self.table.player_hands[i];
            proof {
                assert(hand_ok(m.hands[i as int]));
                assert(m.hands.subrange(0, i + 1).drop_last() == m.hands.subrange(0, i as int));
            }
            let cards = face_up_cards(h.hand.cards());
            let hand_view_now = PlayerHandView {
                cards,
                score: hand_score(h.hand.cards()),
                bet_amount: h.bet.amount,
                is_complete: h.is_complete,
            };
            proof {
                lemma_hard_nonneg(m.hands[i as int].cards);
                assert(hand_view_now@ == hand_view(m.hands[i as int]));
            }
            total_bet = total_bet + h.bet.amount;
            let ghost prev = player_hands@;
            player_hands.push(hand_view_now);
            proof {
                let f = |h: PlayerHandView| h@;
                let g = |h: HandModel| hand_view(h);
                assert forall|k: int| 0 <= k < i implies #[trigger] player_hands@[k]@ == hand_view(m.hands[k]) by {
                    assert(player_hands@[k] == prev[k]);
                    assert(prev.map_values(f)[k] == m.hands.subrange(0, i as int).map_values(g)[k]);
                }
                assert(player_hands@.map_values(|h: PlayerHandView| h@) =~= m.hands.subrange(0, i + 1).map_values(
                    |h: HandModel| hand_view(h),
                ));
            }
            i = i + 1;
        }
        assert(m.hands.subrange(0, n as int) == m.hands);
        let hidden = match self.state {
            BlackjackState::Dealing | BlackjackState::PlayerTurn { .. } => true,
            _ => false,
        };
        let dealer = self.table.dealer_hand.cards();
        let mut dealer_cards: Vec<VisibleCard> = Vec::new();
        let dealer_visible_score: Option<u8>;
        if hidden && dealer.len() > 0 {
            let up = cards_after_first(dealer);
            proof {
                lemma_tail_hard_total(dealer@);
            }
            dealer_cards.push(VisibleCard::FaceDown);
            let mut shown = face_up_cards(up.as_slice());
            dealer_cards.append(&mut shown);
            dealer_visible_score = if up.len() == 0 {
                None
            } else {
                Some(hand_score(up.as_slice()))
            };
        } else {
            dealer_cards = face_up_cards(dealer);
            dealer_visible_score = if hidden {
                None
            } else {
                Some(hand_score(dealer))
            };
        }
        let is_turn = match self.state {
            BlackjackState::PlayerTurn { .. } => true,
            _ => false,
        };
        let r = BlackjackView {
            available_actions: self.available_actions(),
            phase: self.state,
            player_hands,
            active_hand_index,
            dealer_cards,
            dealer_visible_score,
            dealer_has_hidden_card: hidden,
            bank_balance: self.bank.balance(),
            total_bet,
            result: self.result,
            can_hit: is_turn,
            can_stay: is_turn,
            can_start_new_round: self.state == BlackjackState::RoundOver,
        };
        assert(r@.dealer_cards =~= view_of(m).dealer_cards);
        assert(r@.player_hands =~= view_of(m).player_hands);
        r
    }

    /// Whether some hand after `idx` is still open.
    fn open_hand_after(&self, idx: usize) -> (r: bool)
        requires
            idx < self.table.player_hands@.len(),
        ensures
            r == (next_turn(self.model().hands, (idx + 1) as nat) != BlackjackState::DealerTurn),
    {
        let ghost hands = self.model().hands;
        let n = self.table.player_hands.len();
        let mut j: usize = idx + 1;
        while j < n
            invariant
                idx + 1 <= j <= n,
                n == hands.len(),
                hands == self.model().hands,
                next_turn(hands, (idx + 1) as nat) == next_turn(hands, j as nat),
            decreases n - j,
        {
            if !self.table.player_hands[j].is_complete {
                assert(!hands[j as int].complete);
                return true;
            }
            assert(hands[j as int].complete);
            j = j + 1;
        }
        false
    }

    /// Whether the shoe holds every card that `action`, and the dealer's
    /// turn it may lead to, would draw; an action that would be ignored
    /// needs none.
    pub fn is_ready_for(&self, action: PlayerAction) -> (r: bool)
        requires
            wf(self.model()),
        ensures
            r == apply_ready(self.model(), action),
    {
        let ghost m = self.model();
        match self.state {
            BlackjackState::PlayerTurn { hand_index } => {
                let idx = hand_index;
                let ghost h = m.hands[idx as int];
                proof {
                    assert(hand_ok(h));
                    lemma_hard_nonneg(h.cards);
                }
                let remaining = self.shoe.remaining();
                let bet = self.table.player_hands[idx].bet.amount;
                match action {
                    PlayerAction::Hit => {
                        if remaining < 1 {
                            return false;
                        }
                        let top = self.shoe.cards()[0];
                        let mut cards = copy_cards(self.table.player_hands[idx].hand.cards());
                        cards.push(top);
                        proof {
                            lemma_push_totals(h.cards, top);
                        }
                        if !is_bust(cards.as_slice()) {
                            return true;
                        }
                        proof {
                            lemma_next_turn_ignores_earlier(
                                m.hands,
                                idx as int,
                                HandModel { cards: cards@, complete: true, ..h },
                                (idx + 1) as nat,
                            );
                        }
                        if self.open_hand_after(idx) {
                            return true;
                        }
                        assert(m.shoe.skip(1) =~= m.shoe.drop_first());
                        dealer_finishes(self.table.dealer_hand.cards(), self.shoe.cards(), 1)
                    },
                    PlayerAction::Stay => {
                        proof {
                            lemma_next_turn_ignores_earlier(
                                m.hands,
                                idx as int,
                                HandModel { complete: true, ..h },
                                (idx + 1) as nat,
                            );
                        }
                        if self.open_hand_after(idx) {
                            return true;
                        }
                        assert(m.shoe.skip(0) =~= m.shoe);
                        dealer_finishes(self.table.dealer_hand.cards(), self.shoe.cards(), 0)
                    },
                    PlayerAction::Double => {
                        if !(can_double(&self.table.player_hands[idx]) && self.bank.balance() >= bet) {
                            return true;
                        }
                        if remaining < 1 {
                            return false;
                        }
                        proof {
                            lemma_next_turn_ignores_earlier(
                                m.hands,
                                idx as int,
                                HandModel { cards: h.cards.push(m.shoe[0]), bet: (2 * h.bet) as u32, complete: true },
                                (idx + 1) as nat,
                            );
                        }
                        if self.open_hand_after(idx) {
                            return true;
                        }
                        assert(m.shoe.skip(1) =~= m.shoe.drop_first());
                        dealer_finishes(self.table.dealer_hand.cards(), self.shoe.cards(), 1)
                    },
                    PlayerAction::Split => {
                        if !(can_split(self.table.player_hands[idx].hand.cards(), self.split_context())
                            && self.bank.balance() >= bet) {
                            return true;
                        }
                        remaining >= 2
                    },
                }
            },
            _ => true,
        }
    }
}

} // verus!
