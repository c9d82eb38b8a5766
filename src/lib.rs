//! A single-table Blackjack engine with verified scoring rules and round
//! state machine.

pub mod bank;
pub mod blackjack;
pub mod card;
pub mod deck;
pub mod deck_builder;
pub mod deck_type;
pub mod game;
pub mod hand;
pub mod player;
pub mod round;
pub mod rules;
pub mod session;
pub mod types;
pub mod view;
