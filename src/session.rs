//! An interactive session around one table: keys become commands, commands
//! drive the round, and the events of the last command are kept.
use vstd::prelude::*;
use crate::blackjack::{Blackjack, restart_with, shoe_for_next_round};
use crate::card::Card;
use crate::deck_builder::standard_deck;
use crate::round::{RoundModel, Step, apply_ready, apply_step, start, wf};
use crate::types::{
    BlackjackEvent, BlackjackState, DEFAULT_BET, GameResult, HandModel, MAX_BALANCE, PlayerAction,
    STARTING_BALANCE,
};
use crate::view::{BlackjackView, view_of};

verus! {

/// What a key asks the session to do.
#[derive(Debug, Clone, Copy, PartialEq, Eq, Structural)]
pub enum AppCommand {
    Action(PlayerAction),
    NewRound,
    Quit,
}

/// The key bindings: h hit, s stay, d double, p split, n new round, q quit.
pub open spec fn command_for_key(key: char) -> Option<AppCommand> {
    if key == 'h' {
        Some(AppCommand::Action(PlayerAction::Hit))
    } else if key == 's' {
        Some(AppCommand::Action(PlayerAction::Stay))
    } else if key == 'd' {
        Some(AppCommand::Action(PlayerAction::Double))
    } else if key == 'p' {
        Some(AppCommand::Action(PlayerAction::Split))
    } else if key == 'n' {
        Some(AppCommand::NewRound)
    } else if key == 'q' {
        Some(AppCommand::Quit)
    } else {
        None
    }
}

pub fn map_key_to_command(key: char) -> (r: Option<AppCommand>)
    ensures
        r == command_for_key(key),
{
    match key {
        'h' => Some(AppCommand::Action(PlayerAction::Hit)),
        's' => Some(AppCommand::Action(PlayerAction::Stay)),
        'd' => Some(AppCommand::Action(PlayerAction::Double)),
        'p' => Some(AppCommand::Action(PlayerAction::Split)),
        'n' => Some(AppCommand::NewRound),
        'q' => Some(AppCommand::Quit),
        _ => None,
    }
}

/// A freshly shuffled table before its first deal.
pub open spec fn new_table(m: RoundModel) -> bool {
    &&& m.state == BlackjackState::Dealing
    &&& m.shoe.len() == 52
    &&& m.shoe.to_multiset() == standard_deck().to_multiset()
    &&& m.hands == seq![HandModel { cards: Seq::empty(), bet: DEFAULT_BET, complete: false }]
    &&& m.dealer == Seq::<Card>::empty()
    &&& m.balance == STARTING_BALANCE
    &&& m.result == GameResult::Pending
}

pub open spec fn action_of(c: AppCommand) -> PlayerAction {
    match c {
        AppCommand::Action(a) => a,
        _ => PlayerAction::Stay,
    }
}

pub open spec fn is_action(c: AppCommand) -> bool {
    match c {
        AppCommand::Action(_) => true,
        _ => false,
    }
}

/// A table in play, the events of the last command, and whether the user
/// asked to quit.
pub struct App {
    game: Blackjack,
    last_events: Vec<BlackjackEvent>,
    should_quit: bool,
}

impl App {
    pub closed spec fn game_model(&self) -> RoundModel {
        self.game.model()
    }

    pub closed spec fn events(&self) -> Seq<BlackjackEvent> {
        self.last_events@
    }

    pub closed spec fn quitting(&self) -> bool {
        self.should_quit
    }

    pub open spec fn well_formed(&self) -> bool {
        wf(self.game_model())
    }

    /// The command can be carried out: the shoe holds the cards it draws,
    /// and a new round starts from a balance within the table's limit.
    pub open spec fn command_ready(&self, c: AppCommand) -> bool {
        match c {
            AppCommand::Action(a) => apply_ready(self.game_model(), a),
            AppCommand::NewRound => self.game_model().state == BlackjackState::RoundOver
                ==> self.game_model().balance <= MAX_BALANCE,
            AppCommand::Quit => true,
        }
    }

    /// A new table with its first round started.
    pub fn new() -> (r: Self)
        ensures
            r.well_formed(),
            !r.quitting(),
            exists|m: RoundModel|
                new_table(m) && (#[trigger] start(m)).round == r.game_model() && start(m).events
                    == r.events(),
    {
        let mut game = Blackjack::new();
        let ghost m = game.model();
        let last_events = game.start_round();
        let r = App { game, last_events, should_quit: false };
        assert(new_table(m) && start(m).round == r.game_model() && start(m).events == r.events());
        r
    }

    pub fn view(&self) -> (r: BlackjackView)
        requires
            self.well_formed(),
        ensures
            r@ == view_of(self.game_model()),
    {
        self.game.view()
    }

    pub fn should_quit(&self) -> (r: bool)
        ensures
            r == self.quitting(),
    {
        self.should_quit
    }

    /// The events of the last command.
    pub fn last_events(&self) -> (r: &[BlackjackEvent])
        ensures
            r@ == self.events(),
    {
        self.last_events.as_slice()
    }

    /// Whether `command` can be carried out now (see `command_ready`).
    pub fn can_handle(&self, command: AppCommand) -> (r: bool)
        requires
            self.well_formed(),
        ensures
            r == self.command_ready(command),
    {
        match command {
            AppCommand::Action(action) => self.game.is_ready_for(action),
            AppCommand::NewRound => self.game.state != BlackjackState::RoundOver
                || self.game.bank.balance() <= MAX_BALANCE,
            AppCommand::Quit => true,
        }
    }

    /// Quit marks the session for exit; a new round is requested from the
    /// table; an action is applied to the round. The events of the command
    /// replace the last ones.
    pub fn handle_command(&mut self, command: AppCommand)
        requires
            old(self).well_formed(),
            old(self).command_ready(command),
        ensures
            final(self).well_formed(),
            command == AppCommand::Quit ==> final(self).quitting() && final(self).game_model()
                == old(self).game_model() && final(self).events() == old(self).events(),
            command != AppCommand::Quit ==> final(self).quitting() == old(self).quitting(),
            is_action(command) ==> (Step { round: final(self).game_model(), events: final(self).events() })
                == apply_step(old(self).game_model(), action_of(command)),
            command == AppCommand::NewRound && old(self).game_model().state
                != BlackjackState::RoundOver ==> final(self).game_model() == old(self).game_model()
                && final(self).events() == seq![
                BlackjackEvent::RoundStartIgnored { state: old(self).game_model().state },
            ],
            command == AppCommand::NewRound && old(self).game_model().state
                == BlackjackState::RoundOver ==> exists|shoe: Seq<Card>|
                shoe_for_next_round(old(self).game_model().shoe, shoe) && final(self).game_model()
                    == (#[trigger] restart_with(old(self).game_model(), shoe)).round
                    && final(self).events() == seq![BlackjackEvent::RoundStarted] + restart_with(
                    old(self).game_model(),
                    shoe,
                ).events,
    {
        match command {
            AppCommand::Quit => {
                self.should_quit = true;
            },
            AppCommand::NewRound => {
                self.last_events = self.game.request_new_round();
            },
            AppCommand::Action(action) => {
                self.last_events = self.game.apply(action);
            },
        }
    }
}

} // verus!
