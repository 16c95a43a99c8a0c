//! A tic-tac-toe engine: the board, the terminal-state evaluator, moves, and an
//! exhaustive minimax search for the computer's best move.
//!
//! `Tile::O` is the human's mark and `Tile::X` the computer's. Scores are seen
//! from the computer's side: `1` when X has won, `-1` when O has won, `0` else.

pub mod board;
pub mod render;
pub mod search;

pub use board::{Game, MoveError, Outcome, Tile};
