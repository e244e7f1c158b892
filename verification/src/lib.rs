//! Rules-and-decision core of a two-player card-trading game: a shared
//! five-slot market, a draw deck, per-player hands of goods and camels, and
//! scarcity-priced reward tokens.
//!
//! The crate has three tightly coupled pieces: a move rule engine that
//! classifies a set of selected cards into a legal move or rejects it, a move
//! executor that applies a classified move to the game state, and a
//! utility-based decision subsystem (scorers and pickers) that lets a
//! non-human player choose among candidate moves.

pub mod card;
pub mod resources;
pub mod selection;
pub mod rules;
pub(crate) mod randomness;
pub mod tokens;
pub mod execution;
pub mod scorers;
pub mod picker;
pub mod setup;
pub mod endgame;
