//! Final-game outcome calculator for a four-player points-based table game.
//!
//! `GameConfig::to_points` redistributes a zero-sum raw score vector into
//! rank-adjusted points, splitting per-rank awards among tied seats.
//! `FinalGameState::calc` enumerates every terminal event (self-draw or
//! discard win, for every winner/payer pair and every catalog value) and
//! reports the resulting scores, points, and ranking for each.

pub mod outcomes;
pub mod ranking;
pub mod scoring;

pub use outcomes::{FinalGameState, GameEnd, GameResult, Results, ScoreCatalog};
pub use scoring::GameConfig;
