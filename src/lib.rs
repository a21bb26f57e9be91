//! A mental-poker table: a collaborative deck that every player encrypts in
//! turn and reveals card by card, a betting engine, and a game that ties the
//! two together.
pub mod deck;
pub mod game;
pub mod lobby;
pub mod poker;
pub mod types;
